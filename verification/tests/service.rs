use cadence_core::models::{Album, AlbumId, Track, TrackDisplay, TrackId, TrackMetadata};
use cadence_core::organization::{FileMove, PlanEntry, Preset, Template};
use cadence_core::service::{
    album_artist_label, album_hint, album_lookup_terms, album_needs_lookup, album_phase,
    albums_needing_lookup, artwork_album, artwork_artist, fill_blank_title,
    folders_holding, genre_was_fixed, library_moves, library_plan, organize_metadata, pick_track_root, progress_total,
    queued_phase, scan_batch_ready, track_display_meta, track_lookup_terms, track_root,
    vanished_paths,
    AlbumOutcome, LookupSummary, FINISHED_PHASE,
};

fn album(id: i64, artwork: bool, genre: Option<&str>, year: Option<i32>) -> Album {
    Album {
        id: AlbumId(id),
        name: format!("A{id}"),
        album_artist_id: None,
        year,
        genre: genre.map(|g| g.to_owned()),
        is_compilation: false,
        track_count: 1,
        artwork_path: if artwork { Some("/c/x.jpg".into()) } else { None },
    }
}

fn display(artist: &str, album: &str) -> TrackDisplay {
    TrackDisplay {
        track: Track {
            id: TrackId(1),
            path: "/m/a.flac".into(),
            title: "Stored".into(),
            album_id: None,
            artist_id: None,
            album_artist_id: None,
            composer: None,
            genre: Some("Jazz".into()),
            year: Some(1959),
            track_number: Some(4),
            disc_number: Some(1),
            duration_ms: Some(1000),
            format: None,
            file_size: 0,
            modified_at: 0,
            added_at: 0,
            play_count: 0,
            favorite: false,
        },
        artist_name: artist.into(),
        album_name: album.into(),
        artwork_path: None,
    }
}

#[test]
fn only_albums_with_gaps_are_looked_up() {
    let albums = vec![
        album(1, true, Some("Jazz"), Some(1959)),
        album(2, false, Some("Jazz"), Some(1959)),
        album(3, true, Some(""), Some(1959)),
        album(4, true, Some("Jazz"), None),
        album(5, true, None, Some(1)),
    ];
    assert!(!album_needs_lookup(&albums[0]));
    let ids: Vec<i64> = albums_needing_lookup(&albums).iter().map(|a| a.id.0).collect();
    assert_eq!(ids, vec![2, 3, 4, 5]);
}

#[test]
fn summary_counts_outcomes() {
    let mut s = LookupSummary::starting(4);
    s.record(AlbumOutcome::NoTrack);
    s.record(AlbumOutcome::NoMatch);
    s.record(AlbumOutcome::Matched { genre_fixed: true, artwork_saved: true, written: true });
    s.record(AlbumOutcome::Matched { genre_fixed: false, artwork_saved: false, written: false });
    s.record(AlbumOutcome::Complete);
    assert_eq!(
        s,
        LookupSummary {
            albums_scanned: 4,
            artwork_updated: 1,
            genres_fixed: 1,
            metadata_updated: 1,
            artist_photos: 0,
            needs_review: 3,
            network_lookups: 3,
        }
    );
    assert!(s.changed_library());
    assert!(!LookupSummary::default().changed_library());
}

#[test]
fn genre_fix_needs_blank_before_and_value_after() {
    assert!(genre_was_fixed(&None, &Some("Jazz".into())));
    assert!(genre_was_fixed(&Some(String::new()), &Some("Jazz".into())));
    assert!(!genre_was_fixed(&Some("Rock".into()), &Some("Rock".into())));
    assert!(!genre_was_fixed(&None, &Some(String::new())));
}

#[test]
fn progress_texts() {
    assert_eq!(progress_total(0), 1);
    assert_eq!(progress_total(7), 7);
    assert_eq!(queued_phase(0), "Nothing missing — library looks complete");
    assert_eq!(queued_phase(12), "Queued 12 albums with missing metadata");
    assert_eq!(album_phase("Kind of Blue"), "Album · Kind of Blue");
    assert_eq!(FINISHED_PHASE, "Finished");
}

#[test]
fn track_terms_fall_back_and_require_both() {
    let meta = TrackMetadata {
        album_artist: Some("Band".into()),
        ..Default::default()
    };
    assert_eq!(
        track_lookup_terms(&meta, "Stored"),
        Some(("Band".to_owned(), "Stored".to_owned()))
    );
    // An empty artist tag is not replaced by the album artist.
    let meta = TrackMetadata {
        artist: Some(String::new()),
        album_artist: Some("Band".into()),
        ..Default::default()
    };
    assert_eq!(track_lookup_terms(&meta, "Stored"), None);
    // An empty title tag is not replaced by the stored title.
    let meta = TrackMetadata {
        artist: Some("A".into()),
        title: Some(String::new()),
        ..Default::default()
    };
    assert_eq!(track_lookup_terms(&meta, "Stored"), None);
}

#[test]
fn album_terms_use_the_filled_title() {
    let mut meta = TrackMetadata { artist: Some("A".into()), ..Default::default() };
    assert_eq!(album_lookup_terms(&meta), None);
    fill_blank_title(&mut meta, &"Stored".to_owned());
    assert_eq!(meta.title.as_deref(), Some("Stored"));
    assert_eq!(album_lookup_terms(&meta), Some(("A".to_owned(), "Stored".to_owned())));
    fill_blank_title(&mut meta, &"Other".to_owned());
    assert_eq!(meta.title.as_deref(), Some("Stored"));
    assert_eq!(album_hint(&meta, &"A1".to_owned()), "A1");
    meta.album = Some("Tag".into());
    assert_eq!(album_hint(&meta, &"A1".to_owned()), "Tag");
}

#[test]
fn artwork_names_and_cover_file() {
    let meta = TrackMetadata { artist: Some("A".into()), ..Default::default() };
    assert_eq!(artwork_artist(&meta), "A");
    assert_eq!(artwork_album(&meta), "Unknown Album");
    assert_eq!(artwork_artist(&TrackMetadata::default()), "Unknown Artist");
    let meta = TrackMetadata {
        artist: Some("A".into()),
        album_artist: Some(String::new()),
        ..Default::default()
    };
    assert_eq!(artwork_artist(&meta), "");
}

#[test]
fn display_meta_uses_stored_fields() {
    let item = display("Miles", "");
    let m = track_display_meta(&item);
    assert_eq!(m.title.as_deref(), Some("Stored"));
    assert_eq!(m.artist.as_deref(), Some("Miles"));
    assert_eq!(m.album_artist.as_deref(), Some("Miles"));
    assert_eq!(m.album, None);
    assert_eq!(m.genre.as_deref(), Some("Jazz"));
    assert_eq!(m.track_number, Some(4));
    assert_eq!(m.duration_ms, Some(1000));
}

#[test]
fn preview_metadata_fills_gaps_from_the_row() {
    let item = display("Miles", "Kind of Blue");
    let read = TrackMetadata {
        title: Some(String::new()),
        artist: Some("Tagged".into()),
        year: Some(2000),
        ..Default::default()
    };
    let m = organize_metadata(Some(read), &item);
    assert_eq!(m.title.as_deref(), Some("Stored"));
    assert_eq!(m.artist.as_deref(), Some("Tagged"));
    assert_eq!(m.album.as_deref(), Some("Kind of Blue"));
    assert_eq!(m.album_artist.as_deref(), Some("Tagged"));
    assert_eq!(m.year, Some(2000));
    assert_eq!(m.genre.as_deref(), Some("Jazz"));
    assert_eq!(m.disc_number, Some(1));
    let m = organize_metadata(None, &item);
    assert_eq!(m, {
        let mut d = track_display_meta(&item);
        d.album = Some("Kind of Blue".into());
        d
    });
}

#[test]
fn deepest_library_folder_wins() {
    let folders = vec!["/music".to_owned(), "/music/jazz".to_owned(), "/other".to_owned()];
    assert_eq!(folders_holding(&folders, "/music/jazz/a.flac"), vec![true, true, false]);
    assert_eq!(track_root(&folders, "/music/jazz/a.flac", &"/root".to_owned()), "/music/jazz");
    assert_eq!(track_root(&folders, "/music/rock/a.flac", &"/root".to_owned()), "/music");
    assert_eq!(track_root(&folders, "/elsewhere/a.flac", &"/root".to_owned()), "/root");
    // Path prefixes count by component only.
    assert_eq!(track_root(&folders, "/musicals/a.flac", &"/root".to_owned()), "/root");
    // Equally long candidates: the last one wins.
    let same = vec!["/a/b".to_owned(), "/a/c".to_owned()];
    assert_eq!(pick_track_root(&same, &vec![true, true], &"/r".to_owned()), "/a/c");
}

#[test]
fn batches_flush_when_full_or_at_the_end() {
    assert!(!scan_batch_ready(3, 4, 10));
    assert!(scan_batch_ready(64, 4, 100));
    assert!(scan_batch_ready(0, 9, 10));
}

#[test]
fn album_artist_labels() {
    assert_eq!(album_artist_label(Some("Miles".into())), "Miles");
    assert_eq!(album_artist_label(Some(String::new())), "Unknown Artist");
    assert_eq!(album_artist_label(None), "Unknown Artist");
}

#[test]
fn vanished_files_below_the_folder() {
    let stored = vec![
        "/music/a.flac".to_owned(),
        "/music/b.flac".to_owned(),
        "/other/c.flac".to_owned(),
        "/musicals/d.flac".to_owned(),
    ];
    let found = vec!["/music/b.flac".to_owned()];
    assert_eq!(vanished_paths(&stored, "/music", &found), vec!["/music/a.flac".to_owned()]);
    assert!(vanished_paths(&stored, "/music", &stored).is_empty());
    assert_eq!(vanished_paths(&stored, "/other", &vec![]), vec!["/other/c.flac".to_owned()]);
}

#[test]
fn library_plan_catches_rows_going_to_one_place() {
    let mut first = display("Miles", "Kind of Blue");
    first.track.path = "/music/in/a.flac".into();
    let mut second = display("Miles", "Kind of Blue");
    second.track.path = "/music/in/b.flac".into();
    let mut third = display("Miles", "Kind of Blue");
    third.track.path = "/music/in/c.flac".into();
    third.track.track_number = Some(5);
    let items = vec![(first, None), (second, None), (third, None)];
    let folders = vec!["/music".to_owned()];
    let root = "/root".to_owned();
    let template = Template::Preset(Preset::ArtistAlbumTrack);
    let moves = library_moves(&root, &template, &folders, &items);
    assert_eq!(
        moves,
        vec![
            ("/music/in/a.flac".to_owned(), "/music/Miles/Kind of Blue/04 Stored.flac".to_owned()),
            ("/music/in/b.flac".to_owned(), "/music/Miles/Kind of Blue/04 Stored.flac".to_owned()),
            ("/music/in/c.flac".to_owned(), "/music/Miles/Kind of Blue/05 Stored.flac".to_owned()),
        ]
    );
    let plan = library_plan(&root, &template, &folders, &items, &vec![false, false, false]);
    assert_eq!(
        plan.entries,
        vec![
            PlanEntry::Move(FileMove {
                from: "/music/in/a.flac".into(),
                to: "/music/Miles/Kind of Blue/04 Stored.flac".into(),
            }),
            PlanEntry::Conflict {
                file_move: FileMove {
                    from: "/music/in/b.flac".into(),
                    to: "/music/Miles/Kind of Blue/04 Stored.flac".into(),
                },
            },
            PlanEntry::Move(FileMove {
                from: "/music/in/c.flac".into(),
                to: "/music/Miles/Kind of Blue/05 Stored.flac".into(),
            }),
        ]
    );
}

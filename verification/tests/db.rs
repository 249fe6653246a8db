use cadence_core::db::{
    build_fts_query, duration_column, duration_from_column, library_names, migration_step, needs_rescan, search_query, title_from_path,
    Migration, MigrationStep, SongSort, LATEST_SCHEMA_VERSION,
};
use cadence_core::models::TrackMetadata;

#[test]
fn fts_queries_quote_prefix_terms() {
    assert_eq!(build_fts_query("mil"), "\"mil\"*");
    assert_eq!(build_fts_query("  so   what "), "\"so\"* \"what\"*");
    assert_eq!(build_fts_query("say \"hi\""), "\"say\"* \"\"\"hi\"\"\"*");
    assert_eq!(search_query("   "), None);
    assert_eq!(search_query("flam"), Some("\"flam\"*".to_owned()));
}

#[test]
fn rescan_only_unknown_or_changed() {
    assert!(needs_rescan(None, 1, 1));
    assert!(!needs_rescan(Some((10, 20)), 10, 20));
    assert!(needs_rescan(Some((10, 20)), 11, 20));
    assert!(needs_rescan(Some((10, 20)), 10, 21));
}

#[test]
fn titles_from_paths() {
    assert_eq!(title_from_path("/m/So What.flac"), "So What");
    assert_eq!(title_from_path("/"), "Unknown Title");
}

#[test]
fn scanned_names() {
    let meta = TrackMetadata {
        title: Some(String::new()),
        artist: Some("Miles Davis".into()),
        album_artist: Some(String::new()),
        album: Some("Kind of Blue".into()),
        ..Default::default()
    };
    let n = library_names("/m/1.flac", &meta);
    assert_eq!(n.title, "1");
    assert_eq!(n.artist.as_deref(), Some("Miles Davis"));
    assert_eq!(n.album_artist, None);
    assert_eq!(n.album.as_deref(), Some("Kind of Blue"));
    assert_eq!(n.search_artist.as_deref(), Some("Miles Davis"));
    let meta = TrackMetadata { album_artist: Some("Band".into()), ..Default::default() };
    let n = library_names("/m/x.mp3", &meta);
    assert_eq!(n.artist, None);
    assert_eq!(n.album_artist.as_deref(), Some("Band"));
    assert_eq!(n.search_artist.as_deref(), Some("Band"));
}

#[test]
fn migrations_walk_to_latest() {
    assert_eq!(migration_step(0), MigrationStep::Run(Migration::V1));
    assert_eq!(migration_step(1), MigrationStep::Run(Migration::V2));
    assert_eq!(migration_step(LATEST_SCHEMA_VERSION), MigrationStep::Done);
    assert_eq!(migration_step(7), MigrationStep::Done);
    assert_eq!(migration_step(-3), MigrationStep::NoPath(-3));
}

#[test]
fn sort_orders() {
    assert_eq!(SongSort::from_index(2), SongSort::AlbumAsc);
    assert_eq!(SongSort::from_index(99), SongSort::TitleAsc);
    assert_eq!(SongSort::RecentlyAdded.order_clause(), "t.added_at DESC, t.id DESC");
}

#[test]
fn punctuation_stays_inside_terms() {
    // Quotes, parentheses and operators in a word stay inside its quoted term.
    assert_eq!(build_fts_query("a\"b OR (c)"), "\"a\"\"b\"* \"OR\"* \"(c)\"*");
    assert_eq!(build_fts_query("NEAR(x"), "\"NEAR(x\"*");
}

#[test]
fn durations_read_back_as_written() {
    for d in [0u64, 1, 215_000, i64::MAX as u64, i64::MAX as u64 + 1, u64::MAX] {
        assert_eq!(duration_from_column(duration_column(d)), d);
    }
    assert_eq!(duration_column(215_000), 215_000);
    assert_eq!(duration_column(u64::MAX), -1);
    assert_eq!(duration_from_column(-1), u64::MAX);
    assert_eq!(duration_from_column(i64::MIN), 1u64 << 63);
}

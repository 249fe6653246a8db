use cadence_core::models::TrackMetadata;
use cadence_core::organization::{
    FileMove, OrganizationPlan, PlanEntry, Preset, Template, UndoLog,
};

fn meta(track: u32) -> TrackMetadata {
    TrackMetadata {
        title: Some(format!("Track {track}")),
        album_artist: Some("Artist".to_owned()),
        album: Some("Album".to_owned()),
        track_number: Some(track),
        ..Default::default()
    }
}

const SRC: &str = "/nonexistent-cadence-test/src";
const LIB: &str = "/nonexistent-cadence-test/lib";

#[test]
fn detects_in_plan_conflicts() {
    // Both files render to the same destination (identical metadata).
    let plan = OrganizationPlan::build(
        LIB,
        &Template::Preset(Preset::ArtistAlbumTrack),
        vec![(format!("{SRC}/a.mp3"), meta(1)), (format!("{SRC}/b.mp3"), meta(1))],
        &vec![false, false],
    );
    assert_eq!(plan.move_count(), 1);
    assert_eq!(plan.conflict_count(), 1);
}

#[test]
fn build_targets_rendered_path_with_lower_case_extension() {
    let plan = OrganizationPlan::build(
        LIB,
        &Template::Preset(Preset::ArtistAlbumTrack),
        vec![(format!("{SRC}/a.MP3"), meta(1))],
        &vec![false],
    );
    assert_eq!(
        plan.pending_moves(),
        vec![FileMove {
            from: format!("{SRC}/a.MP3"),
            to: format!("{LIB}/Artist/Album/01 Track 1.mp3"),
        }]
    );
}

#[test]
fn file_in_place_is_already_organized() {
    let from = format!("{LIB}/Artist/Album/01 Track 1.mp3");
    let plan = OrganizationPlan::build(
        LIB,
        &Template::Preset(Preset::ArtistAlbumTrack),
        vec![(from.clone(), meta(1))],
        &vec![false],
    );
    assert_eq!(plan.entries, vec![PlanEntry::AlreadyOrganized(from)]);
    assert_eq!(plan.move_count(), 0);
    assert_eq!(plan.conflict_count(), 0);
}

#[test]
fn classify_marks_disk_conflicts() {
    let plan = OrganizationPlan::classify(
        vec![
            ("/a".to_owned(), "/x".to_owned()),
            ("/b".to_owned(), "/y".to_owned()),
            ("/c".to_owned(), "/c".to_owned()),
        ],
        &vec![true, false, false],
    );
    assert_eq!(
        plan.entries,
        vec![
            PlanEntry::Conflict { file_move: FileMove { from: "/a".into(), to: "/x".into() } },
            PlanEntry::Move(FileMove { from: "/b".into(), to: "/y".into() }),
            PlanEntry::AlreadyOrganized("/c".into()),
        ]
    );
}

#[test]
fn execution_records_moves_and_undo_reverses_them() {
    let plan = OrganizationPlan::classify(
        vec![("/a".to_owned(), "/x".to_owned()), ("/b".to_owned(), "/y".to_owned())],
        &vec![false, false],
    );
    let mut run = plan.execute();
    let mut performed = Vec::new();
    while let Some(m) = run.next_move() {
        performed.push(m.clone());
        run.record_done();
    }
    let log = run.into_log();
    assert_eq!(log.moves, performed);
    assert_eq!(
        log.undo_steps(),
        vec![
            FileMove { from: "/y".into(), to: "/b".into() },
            FileMove { from: "/x".into(), to: "/a".into() },
        ]
    );
}

#[test]
fn partial_execution_keeps_a_usable_log() {
    let plan = OrganizationPlan::classify(
        vec![("/a".to_owned(), "/x".to_owned()), ("/b".to_owned(), "/y".to_owned())],
        &vec![false, false],
    );
    let mut run = plan.execute();
    run.record_done();
    let log = run.into_log();
    assert_eq!(log.moves, vec![FileMove { from: "/a".into(), to: "/x".into() }]);
    assert_eq!(UndoLog::default().undo_steps(), vec![]);
}

#[test]
fn noop_moves() {
    assert!(FileMove { from: "/a/b".into(), to: "/a/b".into() }.is_noop());
    assert!(FileMove { from: "/a//b".into(), to: "/a/b".into() }.is_noop());
    assert!(!FileMove { from: "/a/b".into(), to: "/a/c".into() }.is_noop());
}

#[test]
fn target_for_joins_root_and_template() {
    let t = OrganizationPlan::target_for(
        "/music",
        &Template::Preset(Preset::ArtistSingles),
        "/in/x.flac",
        &meta(2),
    );
    assert_eq!(t, "/music/Artist/Singles/Track 2.flac");
}

#[test]
fn dotted_titles_keep_their_whole_name() {
    let m = TrackMetadata {
        title: Some("Mr. Blue Sky".to_owned()),
        album_artist: Some("ELO".to_owned()),
        album: Some("Out of the Blue".to_owned()),
        track_number: Some(1),
        ..Default::default()
    };
    let plan = OrganizationPlan::build(
        "/lib",
        &Template::Preset(Preset::ArtistAlbumTrack),
        vec![("/src/x.flac".to_owned(), m)],
        &vec![false],
    );
    assert_eq!(
        plan.entries,
        vec![PlanEntry::Move(FileMove {
            from: "/src/x.flac".into(),
            to: "/lib/ELO/Out of the Blue/01 Mr. Blue Sky.flac".into(),
        })]
    );
}

#[test]
fn destinations_on_disk_are_conflicts() {
    let tracks = vec![(format!("{SRC}/a.mp3"), meta(1)), (format!("{SRC}/b.mp3"), meta(2))];
    let template = Template::Preset(Preset::ArtistAlbumTrack);
    let targets = OrganizationPlan::targets(LIB, &template, &tracks);
    assert_eq!(
        targets,
        vec![
            format!("{LIB}/Artist/Album/01 Track 1.mp3"),
            format!("{LIB}/Artist/Album/02 Track 2.mp3"),
        ]
    );
    let plan = OrganizationPlan::build(LIB, &template, tracks, &vec![true, false]);
    assert_eq!(plan.conflict_count(), 1);
    assert_eq!(plan.move_count(), 1);
    assert!(matches!(plan.entries[0], PlanEntry::Conflict { .. }));
}

#[test]
fn files_without_extension_get_none() {
    let t = OrganizationPlan::target_for(
        "/music",
        &Template::Preset(Preset::ArtistAlbumTrack),
        "/in/noext",
        &meta(3),
    );
    assert_eq!(t, "/music/Artist/Album/03 Track 3");
}

#[test]
fn same_destination_text_conflicts() {
    let plan = OrganizationPlan::classify(
        vec![("/a".to_owned(), "/lib/x".to_owned()), ("/b".to_owned(), "/lib//x/".to_owned())],
        &vec![false, false],
    );
    assert!(matches!(plan.entries[0], PlanEntry::Move(_)));
    assert!(matches!(plan.entries[1], PlanEntry::Conflict { .. }));
}

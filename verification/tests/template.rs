use cadence_core::models::TrackMetadata;
use cadence_core::organization::template::{sanitize_component, Preset, Template};

fn sample() -> TrackMetadata {
    TrackMetadata {
        title: Some("Song".to_owned()),
        artist: Some("Band".to_owned()),
        album: Some("Great Album".to_owned()),
        album_artist: Some("Band".to_owned()),
        genre: Some("Rock".to_owned()),
        year: Some(2001),
        track_number: Some(3),
        ..Default::default()
    }
}

#[test]
fn renders_preset() {
    let t = Template::Preset(Preset::ArtistYearAlbumTrack);
    assert_eq!(t.render(&sample()), "Band/2001 - Great Album/03 Song");
}

#[test]
fn sanitizes_illegal_characters() {
    assert_eq!(sanitize_component("AC/DC: Live?"), "AC DC Live");
    assert_eq!(sanitize_component("  trailing.  "), "trailing");
}

#[test]
fn compilations_are_grouped() {
    let mut meta = sample();
    meta.compilation = true;
    let rendered = Template::Preset(Preset::ArtistAlbumTrack).render(&meta);
    assert!(rendered.starts_with("Compilations/"));
}

#[test]
fn multi_disc_gets_disc_folder() {
    let mut meta = sample();
    meta.disc_number = Some(2);
    meta.disc_total = Some(2);
    let rendered = Template::Preset(Preset::ArtistAlbumTrack).render(&meta);
    assert!(rendered.contains("/Disc 2/"), "got: {rendered}");
}

#[test]
fn sanitize_never_leaves_nothing() {
    assert_eq!(sanitize_component("..."), "_");
    assert_eq!(sanitize_component(" / : "), "_");
    assert_eq!(sanitize_component(""), "_");
    assert_eq!(sanitize_component("a\t\tb"), "a b");
}

#[test]
fn sanitized_output_is_a_fixed_point() {
    for s in ["AC/DC: Live?", "  trailing.  ", "x..y", " . a  b . ", "..."] {
        let once = sanitize_component(s);
        assert_eq!(sanitize_component(&once), once);
    }
}

#[test]
fn missing_tags_fall_back_to_unknowns() {
    let meta = TrackMetadata::default();
    let rendered = Template::Preset(Preset::ArtistAlbumTrack).render(&meta);
    assert!(rendered.starts_with("Unknown Artist/"), "got: {rendered}");
}

#[test]
fn custom_pattern_keeps_unknown_tokens() {
    let t = Template::Custom("{genre}/{nope}".to_owned());
    assert_eq!(t.render(&sample()), "Rock/{nope}");
}

#[test]
fn presets_are_listed_with_patterns_and_labels() {
    let all = Preset::all();
    assert!(!all.is_empty());
    for p in all {
        assert!(!p.pattern().is_empty());
        assert!(!p.label().is_empty());
    }
    assert_eq!(Template::default(), Template::Preset(Preset::ArtistAlbumTrack));
}

#[test]
fn preset_positions() {
    assert_eq!(Preset::at(0), Preset::ArtistAlbumTrack);
    assert_eq!(Preset::at(3), Preset::ArtistSingles);
    assert_eq!(Preset::at(9), Preset::ArtistAlbumTrack);
}

#[test]
fn rendered_components_stay_inside_the_library() {
    let meta = TrackMetadata {
        title: Some("../../etc/passwd".to_owned()),
        album_artist: Some("..".to_owned()),
        album: Some(" . ".to_owned()),
        track_number: Some(1),
        ..Default::default()
    };
    let rendered = Template::Preset(Preset::ArtistAlbumTrack).render(&meta);
    for part in rendered.split('/') {
        assert!(!part.is_empty(), "got: {rendered}");
        assert_ne!(part, ".");
        assert_ne!(part, "..");
        assert!(!part.starts_with('.') && !part.ends_with('.'), "got: {rendered}");
    }
}

#[test]
fn tracks_without_album_go_to_singles() {
    let meta = TrackMetadata {
        title: Some("Song".to_owned()),
        artist: Some("Band".to_owned()),
        album: None,
        track_number: Some(1),
        ..Default::default()
    };
    let rendered = Template::default().render(&meta);
    assert_eq!(rendered, "Band/Singles/Song");
    let mut empty_album = meta.clone();
    empty_album.album = Some(String::new());
    let rendered = Template::Preset(Preset::ArtistYearAlbumTrack).render(&empty_album);
    assert!(rendered.starts_with("Band/Singles/"), "got: {rendered}");
    let custom = Template::Custom("{artist}/{album}/{title}".to_owned()).render(&meta);
    assert_eq!(custom, "Band/Unknown Album/Song");
}

#[test]
fn segments_that_clean_to_nothing_are_dropped() {
    let t = Template::Custom("{genre}/.../{title}".to_owned());
    let meta = TrackMetadata { title: Some("Song".to_owned()), ..Default::default() };
    assert_eq!(t.render(&meta), "Unknown Genre/Song");
}

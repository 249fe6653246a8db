use cadence_core::metadata::{compilation_flag, missing_fields, MetadataField};
use cadence_core::models::TrackMetadata;

#[test]
fn missing_fields_flags_blanks() {
    let meta = TrackMetadata {
        title: Some(String::new()),
        artist: Some("Someone".to_owned()),
        ..Default::default()
    };
    let missing = missing_fields(&meta);
    assert!(missing.contains(&MetadataField::Title));
    assert!(!missing.contains(&MetadataField::Artist));
    assert!(missing.contains(&MetadataField::Year));
}

#[test]
fn missing_fields_in_order() {
    assert_eq!(
        missing_fields(&TrackMetadata::default()),
        vec![
            MetadataField::Title,
            MetadataField::Artist,
            MetadataField::Album,
            MetadataField::Genre,
            MetadataField::Year,
            MetadataField::TrackNumber,
        ]
    );
    let full = TrackMetadata {
        title: Some("t".into()),
        artist: Some("a".into()),
        album: Some("b".into()),
        genre: Some("g".into()),
        year: Some(1),
        track_number: Some(1),
        ..Default::default()
    };
    assert!(missing_fields(&full).is_empty());
}

#[test]
fn field_labels() {
    assert_eq!(MetadataField::AlbumArtist.label(), "Album Artist");
    assert_eq!(MetadataField::TrackNumber.label(), "Track Number");
    assert_eq!(MetadataField::Artwork.label(), "Artwork");
}

#[test]
fn compilation_flags() {
    assert!(compilation_flag(Some("1")));
    assert!(compilation_flag(Some("TRUE")));
    assert!(compilation_flag(Some("True")));
    assert!(!compilation_flag(Some("yes")));
    assert!(!compilation_flag(Some("0")));
    assert!(!compilation_flag(None));
}

#[test]
fn edit_form_fields() {
    let m = cadence_core::metadata::edited_metadata("So What", "", "Kind of Blue", "", "Jazz", "1959", "x");
    assert_eq!(m.title.as_deref(), Some("So What"));
    assert_eq!(m.artist, None);
    assert_eq!(m.album.as_deref(), Some("Kind of Blue"));
    assert_eq!(m.album_artist, None);
    assert_eq!(m.genre.as_deref(), Some("Jazz"));
    assert_eq!(m.year, Some(1959));
    assert_eq!(m.track_number, None);
    assert!(!m.compilation);
}

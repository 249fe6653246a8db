use cadence_core::models::{AudioFormat, Track, TrackDisplay, TrackId};
use cadence_core::{APP_ID, APP_NAME};

#[test]
fn formats_from_extensions() {
    assert_eq!(AudioFormat::from_extension("FLAC"), Some(AudioFormat::Flac));
    assert_eq!(AudioFormat::from_extension("mp3"), Some(AudioFormat::Mp3));
    assert_eq!(AudioFormat::from_extension("jpg"), None);
    assert_eq!(AudioFormat::Flac.extension(), "flac");
    assert!(AudioFormat::Flac.is_lossless());
    assert!(!AudioFormat::Mp3.is_lossless());
}

#[test]
fn display_labels_fall_back() {
    let t = Track {
        id: TrackId(1),
        path: "/m/1.flac".into(),
        title: "T".into(),
        album_id: None,
        artist_id: None,
        album_artist_id: None,
        composer: None,
        genre: None,
        year: None,
        track_number: None,
        disc_number: None,
        duration_ms: None,
        format: None,
        file_size: 0,
        modified_at: 0,
        added_at: 0,
        play_count: 0,
        favorite: false,
    };
    let d = TrackDisplay {
        track: t,
        artist_name: String::new(),
        album_name: "Blue".into(),
        artwork_path: None,
    };
    assert_eq!(d.artist_label(), "Unknown Artist");
    assert_eq!(d.album_label(), "Blue");
    assert_eq!(APP_ID, "org.cadence.Cadence");
    assert_eq!(APP_NAME, "Cadence");
}

#[test]
fn extensions_round_trip() {
    for f in [
        AudioFormat::Flac,
        AudioFormat::Mp3,
        AudioFormat::Aac,
        AudioFormat::M4a,
        AudioFormat::Ogg,
        AudioFormat::Opus,
        AudioFormat::Wav,
        AudioFormat::Aiff,
        AudioFormat::Alac,
    ] {
        assert_eq!(AudioFormat::from_extension(f.extension()), Some(f));
    }
}

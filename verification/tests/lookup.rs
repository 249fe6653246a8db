use cadence_core::lookup::{parse_i32_text, parse_u32_text};
use cadence_core::lookup::{
    artist_image_step, artist_query, artist_relations_url, artist_search_url, commons_portrait,
    cover_art_release_url, escape_lucene, front_image, recording_album_id, recording_query,
    recording_result, recording_search_url, wikidata_entity_url, year_from_date, ArtistImage,
    ArtistImageStep, CaaImage, LookupResult, MbRecording, MbRelation, MbRelease,
};
use cadence_core::models::TrackMetadata;

#[test]
fn apply_missing_only_preserves_existing() {
    let lookup = LookupResult {
        title: Some("New".into()),
        artist: Some("Fetched".into()),
        year: Some(2000),
        ..Default::default()
    };
    let mut meta = TrackMetadata {
        title: Some("Keep".into()),
        artist: None,
        year: Some(1999),
        ..Default::default()
    };
    lookup.apply_missing_only(&mut meta);
    assert_eq!(meta.title.as_deref(), Some("Keep"));
    assert_eq!(meta.artist.as_deref(), Some("Fetched"));
    assert_eq!(meta.year, Some(1999));
}

#[test]
fn lucene_escape_quotes() {
    assert_eq!(escape_lucene(r#"AC/DC "Live""#), r#"AC\/DC \"Live\""#);
}

#[test]
fn apply_missing_fills_empty_strings_and_settles() {
    let lookup = LookupResult {
        genre: Some("Jazz".into()),
        album: Some("Kind of Blue".into()),
        ..Default::default()
    };
    let mut meta = TrackMetadata { genre: Some(String::new()), ..Default::default() };
    lookup.apply_missing_only(&mut meta);
    assert_eq!(meta.genre.as_deref(), Some("Jazz"));
    assert_eq!(meta.album.as_deref(), Some("Kind of Blue"));
    let once = meta.clone();
    lookup.apply_missing_only(&mut meta);
    assert_eq!(meta, once);
}

#[test]
fn escape_lucene_leaves_plain_text() {
    assert_eq!(escape_lucene("Miles Davis"), "Miles Davis");
    assert_eq!(escape_lucene("a+b"), "a\\+b");
}

#[test]
fn recording_query_adds_album_only_when_present() {
    assert_eq!(
        recording_query("Miles Davis", "So What", None),
        "recording:\"So What\" AND artist:\"Miles Davis\""
    );
    assert_eq!(
        recording_query("Miles Davis", "So What", Some("Kind of Blue")),
        "recording:\"So What\" AND artist:\"Miles Davis\" AND release:\"Kind of Blue\""
    );
    assert_eq!(
        recording_query("Miles Davis", "So What", Some("")),
        "recording:\"So What\" AND artist:\"Miles Davis\""
    );
    assert_eq!(artist_query("AC/DC"), "artist:\"AC\\/DC\"");
}

#[test]
fn search_urls_percent_encode_the_query() {
    assert_eq!(
        recording_search_url("a b\"c"),
        "https://musicbrainz.org/ws/2/recording?query=a%20b%22c&fmt=json&limit=1"
    );
    assert_eq!(
        artist_search_url("artist:\"Björk\""),
        "https://musicbrainz.org/ws/2/artist?query=artist%3A%22Bj%C3%B6rk%22&fmt=json&limit=1"
    );
    assert_eq!(
        artist_relations_url("abc"),
        "https://musicbrainz.org/ws/2/artist/abc?inc=url-rels&fmt=json"
    );
    assert_eq!(
        cover_art_release_url("rel-1"),
        "https://coverartarchive.org/release/rel-1"
    );
    assert!(wikidata_entity_url("Q1").contains("Q1"));
}

#[test]
fn year_is_read_from_the_date_prefix() {
    assert_eq!(year_from_date("1959-08-17"), Some(1959));
    assert_eq!(year_from_date("2001"), Some(2001));
    assert_eq!(year_from_date(""), None);
    assert_eq!(year_from_date("n/a"), None);
}

fn recording() -> MbRecording {
    MbRecording {
        id: "rec-1".into(),
        title: "So What".into(),
        artist_credit: Some(vec!["Miles Davis".into(), "John Coltrane".into()]),
        releases: Some(vec![MbRelease {
            id: "rel-1".into(),
            title: Some("Kind of Blue".into()),
            date: Some("1959-08-17".into()),
        }]),
    }
}

#[test]
fn recording_answer_becomes_a_lookup_result() {
    let rec = recording();
    assert_eq!(recording_album_id(&rec), Some("rel-1".to_owned()));
    let r = recording_result(&rec, Some("http://img".into()));
    assert_eq!(r.title.as_deref(), Some("So What"));
    assert_eq!(r.artist.as_deref(), Some("Miles Davis"));
    assert_eq!(r.album_artist.as_deref(), Some("Miles Davis"));
    assert_eq!(r.album.as_deref(), Some("Kind of Blue"));
    assert_eq!(r.year, Some(1959));
    assert_eq!(r.genre, None);
    assert_eq!(r.musicbrainz_track_id.as_deref(), Some("rec-1"));
    assert_eq!(r.musicbrainz_album_id.as_deref(), Some("rel-1"));
    assert_eq!(r.cover_art_url.as_deref(), Some("http://img"));
}

#[test]
fn recording_without_release_has_no_album() {
    let rec = MbRecording {
        id: "r".into(),
        title: "T".into(),
        artist_credit: None,
        releases: Some(vec![]),
    };
    assert_eq!(recording_album_id(&rec), None);
    let r = recording_result(&rec, None);
    assert_eq!(r.album, None);
    assert_eq!(r.artist, None);
    assert_eq!(r.year, None);
}

#[test]
fn front_image_is_the_first_front_one() {
    let images = vec![
        CaaImage { image: "back".into(), front: false },
        CaaImage { image: "front1".into(), front: true },
        CaaImage { image: "front2".into(), front: true },
    ];
    assert_eq!(front_image(&images), Some("front1".to_owned()));
    assert_eq!(front_image(&vec![]), None);
}

#[test]
fn direct_image_relation_wins() {
    let rels = vec![
        MbRelation {
            rel_type: Some("wikidata".into()),
            resource: Some("https://www.wikidata.org/wiki/Q93341".into()),
        },
        MbRelation { rel_type: Some("IMAGE".into()), resource: Some("http://pic".into()) },
    ];
    assert_eq!(
        artist_image_step("mb-1", &rels),
        ArtistImageStep::Found(ArtistImage { mbid: "mb-1".into(), image_url: "http://pic".into() })
    );
}

#[test]
fn wikidata_relation_is_followed() {
    let rels = vec![
        MbRelation { rel_type: None, resource: Some("http://ignored".into()) },
        MbRelation {
            rel_type: Some("wikidata".into()),
            resource: Some("https://www.wikidata.org/wiki/Q93341".into()),
        },
    ];
    assert_eq!(artist_image_step("mb-1", &rels), ArtistImageStep::AskWikidata("Q93341".into()));
    let bad = vec![MbRelation {
        rel_type: Some("wikidata".into()),
        resource: Some("https://example.org/x".into()),
    }];
    assert_eq!(artist_image_step("mb-1", &bad), ArtistImageStep::NotFound);
}

#[test]
fn commons_portrait_encodes_the_file_name() {
    assert_eq!(commons_portrait("mb", None), None);
    let p = commons_portrait("mb", Some("Miles Davis 1.jpg")).unwrap();
    assert_eq!(p.mbid, "mb");
    assert_eq!(
        p.image_url,
        "https://commons.wikimedia.org/wiki/Special:FilePath/Miles%20Davis%201.jpg?width=512"
    );
}

#[test]
fn numbers_parse_like_std() {
    for s in ["", "+", "-", "0", "-0", "+7", "007", "2147483647", "2147483648", "-2147483648",
              "-2147483649", "12a", " 1", "99999999999999999999", "٣"] {
        assert_eq!(parse_i32_text(s), s.parse::<i32>().ok(), "i32 {s:?}");
        assert_eq!(parse_u32_text(s), s.parse::<u32>().ok(), "u32 {s:?}");
    }
    assert_eq!(parse_u32_text("4294967295"), Some(u32::MAX));
    assert_eq!(parse_u32_text("4294967296"), None);
}

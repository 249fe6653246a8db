use cadence_core::search::recent_albums;
use cadence_core::models::{Album, AlbumId, Artist, ArtistId};
use cadence_core::search::{
    matching_albums, matching_artists, matching_folders, matching_genres, matching_years,
    SECTION_LIMIT,
};

fn artist(id: i64, name: &str) -> Artist {
    Artist {
        id: ArtistId(id),
        name: name.into(),
        album_count: 0,
        track_count: 0,
        image_path: None,
        mbid: None,
    }
}

#[test]
fn artists_match_case_insensitively_in_order() {
    let artists = vec![artist(1, "Miles Davis"), artist(2, "Bill Evans"), artist(3, "MILEY")];
    let found: Vec<i64> = matching_artists(&artists, "mIl").iter().map(|a| a.id.0).collect();
    assert_eq!(found, vec![1, 3]);
    assert_eq!(matching_artists(&artists, "").len(), 3);
    assert!(matching_artists(&artists, "zz").is_empty());
}

#[test]
fn sections_are_capped() {
    let many: Vec<Artist> = (0..30).map(|i| artist(i, &format!("Band {i}"))).collect();
    let found = matching_artists(&many, "band");
    assert_eq!(found.len(), SECTION_LIMIT);
    assert_eq!(found[19].id.0, 19);
}

#[test]
fn albums_genres_folders_years() {
    let albums = vec![Album {
        id: AlbumId(1),
        name: "Kind of Blue".into(),
        album_artist_id: None,
        year: None,
        genre: None,
        is_compilation: false,
        track_count: 5,
        artwork_path: None,
    }];
    assert_eq!(matching_albums(&albums, "BLUE").len(), 1);
    let genres = vec!["Jazz".to_owned(), "Acid Jazz".to_owned(), "Rock".to_owned()];
    assert_eq!(matching_genres(&genres, "jazz"), vec!["Jazz".to_owned(), "Acid Jazz".to_owned()]);
    let folders = vec!["/home/me/Music".to_owned(), "/mnt/nas".to_owned()];
    assert_eq!(matching_folders(&folders, "music"), vec!["/home/me/Music".to_owned()]);
    let years = vec![1959, 1969, 2001, -19];
    assert_eq!(matching_years(&years, "19"), vec![1959, 1969, -19]);
    assert_eq!(matching_years(&years, "-1"), vec![-19]);
}

#[test]
fn unicode_lower_casing() {
    let artists = vec![artist(1, "ÉDITH PIAF")];
    assert_eq!(matching_artists(&artists, "édith").len(), 1);
}

fn album_with_id(id: i64) -> Album {
    Album {
        id: AlbumId(id),
        name: format!("A{id}"),
        album_artist_id: None,
        year: None,
        genre: None,
        is_compilation: false,
        track_count: 1,
        artwork_path: None,
    }
}

#[test]
fn recent_albums_newest_first() {
    let albums: Vec<Album> = [3, 9, 1, 7].into_iter().map(album_with_id).collect();
    let ids: Vec<i64> = recent_albums(&albums).iter().map(|a| a.id.0).collect();
    assert_eq!(ids, vec![9, 7, 3, 1]);
    let many: Vec<Album> = (0..20).map(album_with_id).collect();
    let ids: Vec<i64> = recent_albums(&many).iter().map(|a| a.id.0).collect();
    assert_eq!(ids, (8..20).rev().collect::<Vec<_>>());
    assert!(recent_albums(&vec![]).is_empty());
}

use cadence_core::paths::{
    app_dir_in, artist_image_cache_dir_in, artwork_cache_dir_in, library_db_path_in,
    lookup_cache_dir_in, path_extension, path_file_stem, path_starts_with, paths_equal,
};
use std::path::Path;

const SAMPLES: [&str; 22] = [
    "", "/", ".", "..", "a", "/a/b.mp3", "a/b.tar.gz", "/a/.hidden", "/a/.tar.gz", "a/b.",
    "a/..", "a/.", "a//b", "a/b/", "./a", "/a/b/../c", "x.Y", "..a", "a..", "/tmp/f.FLAC/",
    "a/./b", "//a",
];

#[test]
fn locations_below_the_platform_directories() {
    assert_eq!(app_dir_in(Some("/home/me/.local/share".into())), "/home/me/.local/share/cadence");
    assert_eq!(app_dir_in(None), "./cadence");
    assert_eq!(library_db_path_in("/d/cadence"), "/d/cadence/library.db");
    assert_eq!(artwork_cache_dir_in("/c/cadence"), "/c/cadence/artwork");
    assert_eq!(artist_image_cache_dir_in("/c/cadence"), "/c/cadence/artists");
    assert_eq!(lookup_cache_dir_in("/c/cadence"), "/c/cadence/lookup");
}

#[test]
fn extension_and_stem_agree_with_std() {
    for p in SAMPLES {
        let path = Path::new(p);
        assert_eq!(
            path_extension(p),
            path.extension().map(|e| e.to_str().unwrap().to_owned()),
            "extension of {p:?}"
        );
        assert_eq!(
            path_file_stem(p),
            path.file_stem().map(|e| e.to_str().unwrap().to_owned()),
            "stem of {p:?}"
        );
    }
}

#[test]
fn equality_and_prefix_agree_with_std() {
    for a in SAMPLES {
        for b in SAMPLES {
            assert_eq!(paths_equal(a, b), Path::new(a) == Path::new(b), "{a:?} == {b:?}");
            assert_eq!(path_starts_with(a, b), Path::new(a).starts_with(b), "{a:?} below {b:?}");
        }
    }
}

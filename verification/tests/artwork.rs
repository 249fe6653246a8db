use cadence_core::artwork::{
    artist_image_file_name, artist_image_key, artwork_file_name, artwork_key, hex_encode,
    image_extension, ImageKind,
};

#[test]
fn artwork_key_is_stable_and_distinct() {
    let a = artwork_key("Miles Davis", "Kind of Blue");
    let b = artwork_key("Miles Davis", "Kind of Blue");
    let c = artwork_key("Miles Davis", "Bitches Brew");
    assert_eq!(a, b);
    assert_ne!(a, c);
    assert_eq!(a.len(), 64);
}

#[test]
fn artwork_key_is_the_sha256_of_artist_nul_album() {
    // SHA-256 of the empty input, a well-known digest.
    assert_eq!(
        artist_image_key(""),
        "e3b0c44298fc1c149afbf4c8996fb92427ae41e4649b934ca495991b7852b855"
    );
    // SHA-256 of "abc".
    assert_eq!(
        artist_image_key("abc"),
        "ba7816bf8f01cfea414140de5dae2223b00361a396177a9cb410ff61f20015ad"
    );
    // The separator keeps ("ab", "c") and ("a", "bc") apart.
    assert_ne!(artwork_key("ab", "c"), artwork_key("a", "bc"));
}

#[test]
fn hex_is_lower_case_two_digits_per_byte() {
    assert_eq!(hex_encode(&vec![0u8, 15, 16, 255]), "000f10ff");
    assert_eq!(hex_encode(&vec![]), "");
}

#[test]
fn cache_file_names() {
    let key = artwork_key("Miles Davis", "Kind of Blue");
    assert_eq!(artwork_file_name("Miles Davis", "Kind of Blue", ImageKind::Png), format!("{key}.png"));
    assert_eq!(artwork_file_name("Miles Davis", "Kind of Blue", ImageKind::Jpeg), format!("{key}.jpg"));
    assert_eq!(image_extension(ImageKind::Other), "img");
    assert_eq!(image_extension(ImageKind::Tiff), "tiff");
    assert_eq!(artist_image_file_name("abc"), format!("{}.jpg", artist_image_key("abc")));
}

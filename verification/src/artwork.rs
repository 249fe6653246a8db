//! Stable cache keys for album artwork and artist portraits.
//!
//! Artwork is stored under an application-provided cache directory as
//! `{sha256(album_artist \0 album)}.ext`. Extracting embedded pictures from
//! audio files is file I/O and happens outside this crate.

use vstd::prelude::*;
use vstd::utf8::encode_utf8;

use crate::text::{chars_of, push_all, string_of};

verus! {

/// What a SHA-256 digest of `data` is.
pub uninterp spec fn spec_sha256(data: Seq<u8>) -> Seq<u8>;

/// Calls `sha2::Sha256::digest` on `data`. The digest is a function of the
/// bytes alone, named by [`spec_sha256`]; it is always 32 bytes long.
#[verifier::external_body]
fn sha256(data: &Vec<u8>) -> (r: Vec<u8>)
    ensures
        r@ == spec_sha256(data@),
        r@.len() == 32,
{
    <sha2::Sha256 as sha2::Digest>::digest(data.as_slice()).to_vec()
}

/// The lower-case hexadecimal digit of `d < 16`.
pub open spec fn hex_digit(d: nat) -> char {
    if d < 10 {
        (48 + d) as char
    } else {
        (87 + d) as char
    }
}

/// Bytes written as lower-case hexadecimal, two digits per byte.
pub open spec fn hex_lower(bytes: Seq<u8>) -> Seq<char>
    decreases bytes.len(),
{
    if bytes.len() == 0 {
        Seq::empty()
    } else {
        hex_lower(bytes.drop_last()) + seq![
            hex_digit((bytes.last() / 16) as nat),
            hex_digit((bytes.last() % 16) as nat),
        ]
    }
}

/// Hexadecimal text has two characters per byte.
pub proof fn lemma_hex_len(bytes: Seq<u8>)
    ensures
        hex_lower(bytes).len() == 2 * bytes.len(),
    decreases bytes.len(),
{
    if bytes.len() > 0 {
        lemma_hex_len(bytes.drop_last());
    }
}

fn hex_char(d: u8) -> (c: char)
    requires
        d < 16,
    ensures
        c == hex_digit(d as nat),
{
    if d < 10 {
        let b: u8 = 48 + d;
        b as char
    } else {
        let b: u8 = 87 + d;
        b as char
    }
}

/// Write bytes as lower-case hexadecimal.
pub fn hex_encode(bytes: &Vec<u8>) -> (r: String)
    ensures
        r@ == hex_lower(bytes@),
{
    let mut out: Vec<char> = Vec::new();
    for i in 0..bytes.len()
        invariant
            out@ == hex_lower(bytes@.take(i as int)),
    {
        let b = bytes[i];
        assert(bytes@.take(i + 1).drop_last() =~= bytes@.take(i as int));
        out.push(hex_char(b / 16));
        out.push(hex_char(b % 16));
        assert(out@ =~= hex_lower(bytes@.take(i + 1)));
    }
    assert(bytes@.take(bytes@.len() as int) =~= bytes@);
    string_of(&out)
}

fn push_str_bytes(out: &mut Vec<u8>, s: &str)
    ensures
        final(out)@ == old(out)@ + encode_utf8(s@),
{
    let bytes = s.as_bytes();
    for i in 0..bytes.len()
        invariant
            bytes@ == encode_utf8(s@),
            out@ == old(out)@ + bytes@.take(i as int),
    {
        out.push(bytes[i]);
        assert(out@ =~= old(out)@ + bytes@.take(i + 1));
    }
    assert(bytes@.take(bytes@.len() as int) =~= bytes@);
}

/// The bytes hashed for an album's artwork key.
pub open spec fn album_key_bytes(album_artist: Seq<char>, album: Seq<char>) -> Seq<u8> {
    encode_utf8(album_artist) + seq![0u8] + encode_utf8(album)
}

/// Stable cache key for an album's artwork.
pub fn artwork_key(album_artist: &str, album: &str) -> (r: String)
    ensures
        r@ == hex_lower(spec_sha256(album_key_bytes(album_artist@, album@))),
        r@.len() == 64,
{
    let mut data: Vec<u8> = Vec::new();
    push_str_bytes(&mut data, album_artist);
    data.push(0u8);
    push_str_bytes(&mut data, album);
    assert(data@ =~= album_key_bytes(album_artist@, album@));
    let digest = sha256(&data);
    proof {
        lemma_hex_len(digest@);
    }
    hex_encode(&digest)
}

/// Stable cache key for an artist portrait.
pub fn artist_image_key(artist: &str) -> (r: String)
    ensures
        r@ == hex_lower(spec_sha256(encode_utf8(artist@))),
        r@.len() == 64,
{
    let mut data: Vec<u8> = Vec::new();
    push_str_bytes(&mut data, artist);
    assert(data@ =~= encode_utf8(artist@));
    let digest = sha256(&data);
    proof {
        lemma_hex_len(digest@);
    }
    hex_encode(&digest)
}

/// The kind of an embedded picture, as its MIME type says.
#[derive(Debug, Clone, Copy, PartialEq, Eq, Structural)]
pub enum ImageKind {
    Jpeg,
    Png,
    Gif,
    Bmp,
    Tiff,
    /// Any other or unknown MIME type.
    Other,
}

/// The file extension a picture of a kind is cached with.
pub open spec fn image_extension_of(kind: ImageKind) -> Seq<char> {
    match kind {
        ImageKind::Jpeg => "jpg"@,
        ImageKind::Png => "png"@,
        ImageKind::Gif => "gif"@,
        ImageKind::Bmp => "bmp"@,
        ImageKind::Tiff => "tiff"@,
        ImageKind::Other => "img"@,
    }
}

/// The file extension a picture of a kind is cached with.
pub fn image_extension(kind: ImageKind) -> (r: &'static str)
    ensures
        r@ == image_extension_of(kind),
{
    match kind {
        ImageKind::Jpeg => "jpg",
        ImageKind::Png => "png",
        ImageKind::Gif => "gif",
        ImageKind::Bmp => "bmp",
        ImageKind::Tiff => "tiff",
        ImageKind::Other => "img",
    }
}

/// The file name an album's artwork of a kind is cached under:
/// `{artwork_key}.{ext}`.
pub fn artwork_file_name(album_artist: &str, album: &str, kind: ImageKind) -> (r: String)
    ensures
        r@ == hex_lower(spec_sha256(album_key_bytes(album_artist@, album@))) + seq!['.']
            + image_extension_of(kind),
{
    let key = artwork_key(album_artist, album);
    let mut out = chars_of(key.as_str());
    out.push('.');
    push_all(&mut out, &chars_of(image_extension(kind)));
    string_of(&out)
}

/// The file name an artist's downloaded portrait is cached under:
/// `{artist_image_key}.jpg`.
pub fn artist_image_file_name(artist: &str) -> (r: String)
    ensures
        r@ == hex_lower(spec_sha256(encode_utf8(artist@))) + ".jpg"@,
{
    let key = artist_image_key(artist);
    let mut out = chars_of(key.as_str());
    push_all(&mut out, &chars_of(".jpg"));
    string_of(&out)
}

} // verus!

use rusic::artwork::{artwork_data_url, data_url_mime, artwork_mime, artwork_request_path, expand_home, format_artwork_url, percent_decode, percent_encode};

#[test]
fn encoding_escapes_the_artwork_set_and_non_ascii() {
    assert_eq!(percent_encode("/music/a b#c.jpg"), "/music/a%20b%23c.jpg");
    assert_eq!(percent_encode("C:\\x?y=1&z"), "C%3A%5Cx%3Fy%3D1%26z");
    assert_eq!(percent_encode("é"), "%C3%A9");
    assert_eq!(percent_encode("100%<>\"`+"), "100%25%3C%3E%22%60%2B");
    assert_eq!(percent_encode("a\tb"), "a%09b");
}

#[test]
fn decoding_reverses_valid_escapes_only() {
    assert_eq!(percent_decode(b"a%20b"), b"a b".to_vec());
    assert_eq!(percent_decode(b"%zz%4"), b"%zz%4".to_vec());
    assert_eq!(percent_decode(b"%c3%A9"), vec![0xC3, 0xA9]);
}

#[test]
fn artwork_url_encodes_the_path() {
    assert_eq!(format_artwork_url("/a b/c.png", None), "artwork://local?p=/a%20b/c.png");
    assert_eq!(format_artwork_url("~/pic.jpg", Some("/home/u")), "artwork://local?p=/home/u/pic.jpg");
    assert_eq!(format_artwork_url("~/pic.jpg", None), "artwork://local?p=~/pic.jpg");
}

#[test]
fn home_expansion_only_for_leading_tilde() {
    assert_eq!(expand_home("~/x", Some("/h")), "/h/x");
    assert_eq!(expand_home("/a/~x", Some("/h")), "/a/~x");
}

#[test]
fn request_path_reads_first_p_parameter() {
    assert_eq!(artwork_request_path(Some("x=1&p=%2Fa%20b.png&p=zz")), "/a b.png");
    assert_eq!(artwork_request_path(Some("x=1")), "");
    assert_eq!(artwork_request_path(None), "");
    assert_eq!(artwork_request_path(Some("p=%FF")), "\u{FFFD}");
}

#[test]
fn mime_by_extension() {
    assert_eq!(artwork_mime("/a/b.png"), "image/png");
    assert_eq!(artwork_mime("/a/b.jpg"), "image/jpeg");
    assert_eq!(artwork_mime("/a/b.PNG"), "image/jpeg");
}

#[test]
fn round_trip_of_encoded_path() {
    let path = "/tmp/ünïcode & co?.png";
    let url = format_artwork_url(path, None);
    let query = url.strip_prefix("artwork://local?").unwrap();
    assert_eq!(artwork_request_path(Some(query)), path);
}

#[test]
fn windows_covers_are_inline_data_urls() {
    assert_eq!(artwork_data_url("C:/covers/a.png", b"Man"), "data:image/png;base64,TWFu");
    assert_eq!(artwork_data_url("a.gif", b"Ma"), "data:image/gif;base64,TWE=");
    assert_eq!(artwork_data_url("a.webp", b"M"), "data:image/webp;base64,TQ==");
    assert_eq!(artwork_data_url("a.jpg", b""), "data:image/jpeg;base64,");
    assert_eq!(data_url_mime("cover"), "image/jpeg");
}

#[test]
fn encoded_paths_hold_no_raw_escaped_characters() {
    let e = percent_encode("C:\\a b/\"x\"#%&+=?<>`:é\u{7}.png");
    for (i, c) in e.char_indices() {
        assert!(c.is_ascii());
        assert!(!" \"#&+=?<>`\\:\u{7}".contains(c), "raw {c:?} in {e}");
        if c == '%' {
            let hex = &e[i + 1..i + 3];
            assert!(hex.chars().all(|h| h.is_ascii_digit() || ('A'..='F').contains(&h)));
        }
    }
    assert_eq!(percent_decode(e.as_bytes()), "C:\\a b/\"x\"#%&+=?<>`:é\u{7}.png".as_bytes().to_vec());
}

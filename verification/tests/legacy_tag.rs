use id3tag::{ID3v1, TagError};

fn put(buf: &mut [u8], at: usize, bytes: &[u8]) {
    buf[at..at + bytes.len()].copy_from_slice(bytes);
}

/// A 128-byte legacy trailer with space-padded text fields. Bytes 125 and 126
/// are set afterwards by the callers that need the track-number branches.
fn trailer(title: &str, artist: &str, album: &str, year: &str, comment: &str) -> Vec<u8> {
    let mut t = vec![b' '; 128];
    put(&mut t, 0, b"TAG");
    put(&mut t, 3, title.as_bytes());
    put(&mut t, 33, artist.as_bytes());
    put(&mut t, 63, album.as_bytes());
    put(&mut t, 93, year.as_bytes());
    put(&mut t, 97, comment.as_bytes());
    t[127] = 0;
    t
}

fn pad(s: &str, width: usize) -> String {
    let mut out = String::from(s);
    while out.chars().count() < width {
        out.push(' ');
    }
    out
}

#[test]
fn test_legacy_roundtrip_no_track_zero_bytes() {
    // byte 125 = 0 and byte 126 = 0: no track number, 30-byte comment.
    let mut t = trailer("Greatest Song", "Some Band", "The Album", "1987", "nice track");
    t[125] = 0;
    t[126] = 0;
    t[127] = 17;
    let tag = ID3v1::create_from_binary(&t).unwrap();
    assert_eq!(tag.title, pad("Greatest Song", 30));
    assert_eq!(tag.artist, pad("Some Band", 30));
    assert_eq!(tag.album, pad("The Album", 30));
    assert_eq!(tag.year, 1987);
    assert_eq!(tag.comment, format!("{}\0\0", pad("nice track", 28)));
    assert_eq!(tag.track, None);
    assert_eq!(tag.genre, 17);
}

#[test]
fn test_legacy_roundtrip_with_track() {
    // byte 125 = 0 and byte 126 = 7: track number 7, 28-byte comment.
    let mut t = trailer("Greatest Song", "Some Band", "The Album", "1987", "nice track");
    t[125] = 0;
    t[126] = 7;
    t[127] = 17;
    let tag = ID3v1::create_from_binary(&t).unwrap();
    assert_eq!(tag.comment, pad("nice track", 28));
    assert_eq!(tag.track, Some(7));
    assert_eq!(tag.year, 1987);
    assert_eq!(tag.genre, 17);
}

#[test]
fn test_legacy_roundtrip_long_comment() {
    // byte 125 = 9 (non-zero): no track number, full 30-byte comment.
    let mut t = trailer("Greatest Song", "Some Band", "The Album", "1987", "");
    put(&mut t, 97, pad("nice track", 28).as_bytes());
    t[125] = 9;
    t[126] = 77;
    t[127] = 17;
    let tag = ID3v1::create_from_binary(&t).unwrap();
    assert_eq!(tag.comment, format!("{}\u{9}M", pad("nice track", 28)));
    assert_eq!(tag.track, None);
}

#[test]
fn test_legacy_short_buffer_is_not_found() {
    let t = vec![0u8; 127];
    assert_eq!(ID3v1::create_from_binary(&t).unwrap_err(), TagError::NotFound);
    assert_eq!(ID3v1::create_from_binary(&[]).unwrap_err(), TagError::NotFound);
}

#[test]
fn test_legacy_missing_marker_is_not_found() {
    let t = vec![b'x'; 200];
    assert_eq!(ID3v1::create_from_binary(&t).unwrap_err(), TagError::NotFound);
}

#[test]
fn test_legacy_bad_year_is_parse_error() {
    let t = trailer("Song", "Band", "Album", "19X7", "c");
    assert_eq!(ID3v1::create_from_binary(&t).unwrap_err(), TagError::ParseError);
}

#[test]
fn test_legacy_marker_found_mid_file() {
    // The trailer is recognised at the end of a longer buffer.
    let mut data = vec![0u8; 500];
    let t = trailer("Song", "Band", "Album", "2004", "c");
    data.extend_from_slice(&t);
    let tag = ID3v1::create_from_binary(&data).unwrap();
    assert_eq!(tag.year, 2004);
}

#[test]
fn test_legacy_latin1_high_byte() {
    // A byte above 0x7f decodes to the ISO-8859-1 character with that code
    // point, not to the byte handed in.
    let mut t = trailer("", "", "", "2000", "");
    t[3] = 0xe9;
    let tag = ID3v1::create_from_binary(&t).unwrap();
    assert_eq!(tag.title, format!("é{}", pad("", 29)));
}

use id3tag::{extract_id3, Config, FileTags, TagError};

fn legacy_trailer() -> Vec<u8> {
    let mut t = vec![b' '; 128];
    t[0..3].copy_from_slice(b"TAG");
    t[3..7].copy_from_slice(b"Song");
    t[33..37].copy_from_slice(b"Band");
    t[93..97].copy_from_slice(b"1999");
    t[125] = 0;
    t[126] = 4;
    t[127] = 0;
    t
}

fn frame_header_with_hello() -> Vec<u8> {
    let mut d = b"ID3\x03\x00\x00\x00\x00\x00\x14".to_vec();
    d.extend_from_slice(b"TIT2\x00\x00\x00\x06\x00\x00\x03Hello");
    d
}

#[test]
fn test_extract_both_tags_present() {
    let mut data = frame_header_with_hello();
    data.resize(300, 0);
    data.extend_from_slice(&legacy_trailer());
    let mut tags = FileTags::new();
    assert!(extract_id3(&data, &mut tags).is_ok());
    let v1 = tags.id3v1.expect("legacy tag expected");
    assert_eq!(v1.year, 1999);
    assert_eq!(v1.track, Some(4));
    let v2 = tags.id3v2.expect("frame tag expected");
    assert_eq!(v2.frames.len(), 1);
    assert_eq!(v2.frames[0].data, "Hello");
}

#[test]
fn test_extract_neither_tag_is_still_success() {
    let data = vec![0u8; 300];
    let mut tags = FileTags::new();
    assert!(extract_id3(&data, &mut tags).is_ok());
    assert!(tags.id3v1.is_none());
    assert!(tags.id3v2.is_none());
}

#[test]
fn test_extract_empty_buffer_is_success() {
    let mut tags = FileTags::new();
    assert!(extract_id3(&[], &mut tags).is_ok());
    assert!(tags.id3v1.is_none());
    assert!(tags.id3v2.is_none());
}

#[test]
fn test_extract_propagates_legacy_parse_error() {
    // A trailer whose year field is not numeric: found but malformed, so the
    // whole extraction fails and nothing is stored.
    let mut data = vec![0u8; 100];
    let mut t = legacy_trailer();
    t[93..97].copy_from_slice(b"19X9");
    data.extend_from_slice(&t);
    let mut tags = FileTags::new();
    assert_eq!(extract_id3(&data, &mut tags).unwrap_err(), TagError::ParseError);
    assert!(tags.id3v1.is_none());
    assert!(tags.id3v2.is_none());
}

#[test]
fn test_extract_propagates_frame_tag_error() {
    // A valid legacy trailer together with a malformed frame-based tag: the
    // facade reports the failure and stores neither tag.
    let mut data = b"ID3\x02\x00\x00\x00\x00\x00\x00".to_vec();
    data.resize(300, 0);
    data.extend_from_slice(&legacy_trailer());
    let mut tags = FileTags::new();
    assert_eq!(extract_id3(&data, &mut tags).unwrap_err(), TagError::UnsupportedVersion);
    assert!(tags.id3v1.is_none());
    assert!(tags.id3v2.is_none());
}

#[test]
fn test_extract_legacy_only() {
    let mut data = vec![0u8; 50];
    data.extend_from_slice(&legacy_trailer());
    let mut tags = FileTags::new();
    assert!(extract_id3(&data, &mut tags).is_ok());
    assert!(tags.id3v1.is_some());
    assert!(tags.id3v2.is_none());
}

#[test]
fn test_config_needs_an_argument() {
    let args = vec![String::from("prog")];
    assert_eq!(Config::new(&args).unwrap_err(), "Not enough arguments specified");
}

#[test]
fn test_config_takes_second_argument() {
    let args = vec![String::from("prog"), String::from("Test.mp3")];
    let config = Config::new(&args).unwrap();
    assert_eq!(config.filename, "Test.mp3");
}

#[test]
fn test_file_tags_new_is_empty() {
    let tags = FileTags::new();
    assert!(tags.id3v1.is_none());
    assert!(tags.id3v2.is_none());
}

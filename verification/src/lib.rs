//! Parsing of the two ID3 metadata containers found in MP3 files: the fixed
//! 128-byte trailer at the end of a file and the variable-length, frame-based
//! container at the start of a file.
//!
//! Every parser here is a pure function of its input bytes; file reading and
//! printing live outside this crate.

use vstd::prelude::*;

pub mod bits;
pub mod frames;
pub mod legacy;
pub mod text;

pub use bits::BitArray;
pub use frames::{ID3v2, ID3v2Frame};
pub use legacy::ID3v1;

use frames::{parse_id3v2_spec, Id3v2Model};
use legacy::{parse_id3v1_spec, Id3v1Model};

verus! {

/// The failure kinds the parsers can report.
///
/// `NotFound` means the container is absent, which the extraction facade
/// treats as a recoverable outcome; every other kind is a genuine failure.
#[derive(Debug, Clone, Copy, PartialEq, Eq, Structural)]
pub enum TagError {
    /// The container's marker bytes are absent.
    NotFound,
    /// A container was found but its contents are structurally invalid.
    ParseError,
    /// A text frame declares an encoding identifier outside the known range.
    UnsupportedEncoding,
    /// The frame-based container declares a version this crate does not parse.
    UnsupportedVersion,
    /// A frame kind this crate does not decode.
    UnsupportedFrame,
    /// Text bytes are not valid for their declared encoding.
    DecodeError,
}

/// The tags found in one file: either container may be present, absent, or
/// both at once.
#[derive(Debug)]
pub struct FileTags {
    pub id3v1: Option<ID3v1>,
    pub id3v2: Option<ID3v2>,
}

impl FileTags {
    /// A record with no tags found yet.
    pub fn new() -> (r: FileTags)
        ensures
            r.id3v1 is None,
            r.id3v2 is None,
    {
        FileTags { id3v1: None, id3v2: None }
    }
}

/// Runs both parsers over `data` and stores what they find in `f_tags`.
///
/// A `NotFound` outcome from either parser leaves its field untouched and is
/// not an error. Any other failure is returned — the legacy parser's failure
/// first — and then `f_tags` is left entirely unchanged.
pub fn extract_id3(data: &[u8], f_tags: &mut FileTags) -> (r: Result<(), TagError>)
    ensures
        match r {
            Ok(_) => {
                &&& parse_id3v1_spec(data@) is Ok || parse_id3v1_spec(data@)
                    == Err::<Id3v1Model, TagError>(TagError::NotFound)
                &&& parse_id3v2_spec(data@) is Ok || parse_id3v2_spec(data@)
                    == Err::<Id3v2Model, TagError>(TagError::NotFound)
                &&& match parse_id3v1_spec(data@) {
                    Ok(m) => final(f_tags).id3v1 matches Some(t) && t@ == m,
                    Err(_) => final(f_tags).id3v1 == old(f_tags).id3v1,
                }
                &&& match parse_id3v2_spec(data@) {
                    Ok(m) => final(f_tags).id3v2 matches Some(t) && t@ == m,
                    Err(_) => final(f_tags).id3v2 == old(f_tags).id3v2,
                }
            },
            Err(e) => {
                &&& *final(f_tags) == *old(f_tags)
                &&& e != TagError::NotFound
                &&& if parse_id3v1_spec(data@) is Err && parse_id3v1_spec(data@)
                    != Err::<Id3v1Model, TagError>(TagError::NotFound) {
                    parse_id3v1_spec(data@) == Err::<Id3v1Model, TagError>(e)
                } else {
                    parse_id3v2_spec(data@) == Err::<Id3v2Model, TagError>(e)
                }
            },
        },
{
    let id3v1_tags = ID3v1::create_from_binary(data);
    let id3v2_tags = ID3v2::create_from_binary(data);
    let v1 = match id3v1_tags {
        Ok(x) => Some(x),
        Err(TagError::NotFound) => None,
        Err(e) => {
            return Err(e);
        },
    };
    let v2 = match id3v2_tags {
        Ok(x) => Some(x),
        Err(TagError::NotFound) => None,
        Err(e) => {
            return Err(e);
        },
    };
    if let Some(x) = v1 {
        f_tags.id3v1 = Some(x);
    }
    if let Some(x) = v2 {
        f_tags.id3v2 = Some(x);
    }
    Ok(())
}

/// What the surrounding program was asked to work on: the name of the file
/// whose bytes are handed to the parsers.
#[derive(Debug)]
pub struct Config {
    pub filename: String,
}

impl Config {
    /// Takes the file name from the argument list: the argument after the
    /// program's own name. Fails when no such argument is present.
    pub fn new(args: &[String]) -> (r: Result<Config, &'static str>)
        ensures
            match r {
                Ok(c) => args@.len() >= 2 && c.filename@ == args@[1]@,
                Err(m) => args@.len() < 2 && m@ == "Not enough arguments specified"@,
            },
    {
        if args.len() < 2 {
            return Err("Not enough arguments specified");
        }
        let filename = args[1].clone();
        Ok(Config { filename })
    }
}

} // verus!

//! The fixed-layout legacy tag: a 128-byte trailer at the end of the file,
//! marked `"TAG"`, holding positionally encoded text fields.

use vstd::prelude::*;
use vstd::slice::slice_subrange;
use crate::TagError;
use crate::text::{decode_latin1, latin1_seq};

verus! {

/// True when `b` is an ASCII decimal digit.
pub open spec fn is_ascii_digit(b: u8) -> bool {
    48 <= b <= 57
}

/// The number written by the four ASCII digits of `b`.
pub open spec fn year_val(b: Seq<u8>) -> int
    recommends
        b.len() == 4,
{
    (b[0] - 48) * 1000 + (b[1] - 48) * 100 + (b[2] - 48) * 10 + (b[3] - 48)
}

/// True when `data` ends in a 128-byte region beginning with the marker
/// bytes `"TAG"`.
pub open spec fn legacy_present(data: Seq<u8>) -> bool {
    &&& data.len() >= 128
    &&& data[data.len() - 128] == 84
    &&& data[data.len() - 127] == 65
    &&& data[data.len() - 126] == 71
}

/// The mathematical content of a parsed legacy tag.
#[verifier::ext_equal]
pub struct Id3v1Model {
    pub title: Seq<char>,
    pub artist: Seq<char>,
    pub album: Seq<char>,
    pub year: int,
    pub comment: Seq<char>,
    pub track: Option<u8>,
    pub genre: u8,
}

/// What parsing the legacy trailer of `data` yields.
///
/// `NotFound` when the trailer region is absent; `ParseError` when the year
/// field holds a non-digit byte. On success the fixed-width fields are read
/// as ISO-8859-1 without trimming. When byte 125 of the region is zero and
/// byte 126 is not, byte 126 is the track number and the comment is 28 bytes;
/// otherwise there is no track number and the comment is 30 bytes.
pub open spec fn parse_id3v1_spec(data: Seq<u8>) -> Result<Id3v1Model, TagError> {
    if !legacy_present(data) {
        Err(TagError::NotFound)
    } else {
        let t = data.subrange(data.len() - 128, data.len() as int);
        if !(is_ascii_digit(t[93]) && is_ascii_digit(t[94]) && is_ascii_digit(t[95])
            && is_ascii_digit(t[96])) {
            Err(TagError::ParseError)
        } else {
            Ok(Id3v1Model {
                title: latin1_seq(t.subrange(3, 33)),
                artist: latin1_seq(t.subrange(33, 63)),
                album: latin1_seq(t.subrange(63, 93)),
                year: year_val(t.subrange(93, 97)),
                comment: if t[125] == 0 && t[126] != 0 {
                    latin1_seq(t.subrange(97, 125))
                } else {
                    latin1_seq(t.subrange(97, 127))
                },
                track: if t[125] == 0 && t[126] != 0 {
                    Some(t[126])
                } else {
                    None
                },
                genre: t[127],
            })
        }
    }
}

/// A parsed legacy tag. Text fields keep their fixed-width padding.
#[derive(Debug)]
pub struct ID3v1 {
    pub title: String,
    pub artist: String,
    pub album: String,
    pub year: u64,
    pub comment: String,
    pub track: Option<u8>,
    pub genre: u8,
}

impl View for ID3v1 {
    type V = Id3v1Model;

    open spec fn view(&self) -> Id3v1Model {
        Id3v1Model {
            title: self.title@,
            artist: self.artist@,
            album: self.album@,
            year: self.year as int,
            comment: self.comment@,
            track: self.track,
            genre: self.genre,
        }
    }
}

impl ID3v1 {
    /// The legacy tag always occupies exactly this many trailing bytes.
    pub const LEN_BYTES: usize = 128;

    /// Parses the legacy trailer of `file_data`, exactly as
    /// [`parse_id3v1_spec`] describes: `NotFound` when the buffer is shorter
    /// than 128 bytes or does not carry the `"TAG"` marker, `ParseError` when
    /// the year field is not four ASCII digits, and otherwise the decoded
    /// tag.
    pub fn create_from_binary(file_data: &[u8]) -> (r: Result<ID3v1, TagError>)
        ensures
            match r {
                Ok(tag) => parse_id3v1_spec(file_data@) == Ok::<Id3v1Model, TagError>(tag@),
                Err(e) => parse_id3v1_spec(file_data@) == Err::<Id3v1Model, TagError>(e),
            },
    {
        if file_data.len() < 128 {
            return Err(TagError::NotFound);
        }
        let start = file_data.len() - 128;
        let tag = slice_subrange(file_data, start, file_data.len());
        if !(tag[0] == 84 && tag[1] == 65 && tag[2] == 71) {
            return Err(TagError::NotFound);
        }
        let y0 = tag[93];
        let y1 = tag[94];
        let y2 = tag[95];
        let y3 = tag[96];
        if y0 < 48 || y0 > 57 || y1 < 48 || y1 > 57 || y2 < 48 || y2 > 57 || y3 < 48 || y3 > 57 {
            return Err(TagError::ParseError);
        }
        let year: u64 = (y0 - 48) as u64 * 1000 + (y1 - 48) as u64 * 100 + (y2 - 48) as u64 * 10
            + (y3 - 48) as u64;
        let title = decode_latin1(slice_subrange(tag, 3, 33));
        let artist = decode_latin1(slice_subrange(tag, 33, 63));
        let album = decode_latin1(slice_subrange(tag, 63, 93));
        let track: Option<u8>;
        let comment: String;
        if tag[125] == 0 && tag[126] != 0 {
            track = Some(tag[126]);
            comment = decode_latin1(slice_subrange(tag, 97, 125));
        } else {
            track = None;
            comment = decode_latin1(slice_subrange(tag, 97, 127));
        }
        let genre = tag[127];
        let result = ID3v1 { title, artist, album, year, comment, track, genre };
        proof {
            let m = parse_id3v1_spec(file_data@)->Ok_0;
            assert(result@.title =~= m.title);
            assert(result@.artist =~= m.artist);
            assert(result@.album =~= m.album);
            assert(result@.comment =~= m.comment);
            assert(result@ =~= m);
        }
        Ok(result)
    }
}

} // verus!

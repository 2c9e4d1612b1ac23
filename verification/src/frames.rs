//! The variable-length, frame-based tag: a 10-byte header marked `"ID3"` at
//! the start of the file, followed by self-describing frames up to a declared
//! total size.

use vstd::prelude::*;
use vstd::slice::slice_subrange;
use crate::TagError;
use crate::bits::{bits_of, BitArray};
use crate::text::{
    decode_latin1, decode_text_spec, decode_utf16be, decode_utf16le, decode_utf8_bytes,
    latin1_seq,
};

verus! {

/// The 28-bit value of a 4-byte synchsafe integer: the low 7 bits of each
/// byte, big-endian.
pub open spec fn synchsafe_val(b: Seq<u8>) -> int
    recommends
        b.len() == 4,
{
    (b[3] & 0x7f) + (b[2] & 0x7f) * 0x80 + (b[1] & 0x7f) * 0x4000 + (b[0] & 0x7f) * 0x200000
}

/// The value of a plain big-endian 32-bit integer.
pub open spec fn be32_val(b: Seq<u8>) -> int
    recommends
        b.len() == 4,
{
    b[0] * 0x1000000 + b[1] * 0x10000 + b[2] * 0x100 + b[3]
}

/// The declared body size of the frame whose header starts at `off`.
///
/// Version 4 encodes it as a synchsafe integer; version 3 as a plain
/// big-endian 32-bit integer.
pub open spec fn frame_size_spec(data: Seq<u8>, off: int, version: u8) -> int {
    if version == 4 {
        synchsafe_val(data.subrange(off + 4, off + 8))
    } else {
        be32_val(data.subrange(off + 4, off + 8))
    }
}

/// The mathematical content of one parsed text frame.
#[verifier::ext_equal]
pub struct FrameModel {
    pub version: u8,
    pub id: Seq<char>,
    pub size: int,
    pub status_flags: Seq<bool>,
    pub format_flags: Seq<bool>,
    pub data: Seq<char>,
}

/// The frame starting at `off`, with its text body already decoded to `text`.
pub open spec fn frame_model_at(data: Seq<u8>, off: int, version: u8, text: Seq<char>)
    -> FrameModel {
    FrameModel {
        version,
        id: latin1_seq(data.subrange(off, off + 4)),
        size: frame_size_spec(data, off, version),
        status_flags: bits_of(data[off + 8], true),
        format_flags: bits_of(data[off + 9], true),
        data: text,
    }
}

/// What iterating the frames of `data` over the region `[off, end)` yields.
///
/// Iteration stops at the declared boundary, or earlier at a zero byte
/// (padding) or where no full 10-byte frame header fits before the boundary.
/// A frame with a zero declared size, or one whose declared extent would
/// cross the boundary, is a `ParseError`. A frame whose identifier starts
/// with `'T'` carries text: its first body byte names the encoding and the
/// rest is decoded by [`decode_text_spec`]. Any other frame is skipped over
/// by its declared size.
pub open spec fn parse_frames_spec(data: Seq<u8>, off: int, end: int, version: u8)
    -> Result<Seq<FrameModel>, TagError>
    decreases end - off,
{
    if off + 10 > end || data[off] == 0 {
        Ok(Seq::empty())
    } else {
        let fsize = frame_size_spec(data, off, version);
        if fsize <= 0 || off + 10 + fsize > end {
            Err(TagError::ParseError)
        } else if data[off] == 84 {
            match decode_text_spec(data.subrange(off + 11, off + 10 + fsize), data[off + 10]) {
                Ok(text) => match parse_frames_spec(data, off + 10 + fsize, end, version) {
                    Ok(rest) => Ok(seq![frame_model_at(data, off, version, text)] + rest),
                    Err(e) => Err(e),
                },
                Err(e) => Err(e),
            }
        } else {
            parse_frames_spec(data, off + 10 + fsize, end, version)
        }
    }
}

/// The mathematical content of a parsed frame-based tag.
#[verifier::ext_equal]
pub struct Id3v2Model {
    pub version: u8,
    pub revision: u8,
    pub unsynchronization: bool,
    pub extended_header: bool,
    pub experimental_indicator: bool,
    pub size: int,
    pub frames: Seq<FrameModel>,
}

/// True when `data` begins with the marker bytes `"ID3"`.
pub open spec fn frame_tag_present(data: Seq<u8>) -> bool {
    data.len() >= 3 && data[0] == 73 && data[1] == 68 && data[2] == 51
}

/// What parsing the frame-based tag of `data` yields.
///
/// `NotFound` when the marker is absent; `ParseError` when the 10-byte header
/// is truncated or the buffer is shorter than the declared extent
/// `10 + size`; `UnsupportedVersion` for any major version other than 3
/// or 4. Otherwise the header fields are decoded and the frames of
/// `[10, 10 + size)` are iterated by [`parse_frames_spec`]. Nothing past
/// offset `10 + size` is ever read.
pub open spec fn parse_id3v2_spec(data: Seq<u8>) -> Result<Id3v2Model, TagError> {
    if !frame_tag_present(data) {
        Err(TagError::NotFound)
    } else if data.len() < 10 {
        Err(TagError::ParseError)
    } else if data[3] != 3 && data[3] != 4 {
        Err(TagError::UnsupportedVersion)
    } else {
        let size = synchsafe_val(data.subrange(6, 10));
        if data.len() < 10 + size {
            Err(TagError::ParseError)
        } else {
            match parse_frames_spec(data, 10, 10 + size, data[3]) {
                Ok(frames) => Ok(Id3v2Model {
                    version: data[3],
                    revision: data[4],
                    unsynchronization: bits_of(data[5], true)[0],
                    extended_header: bits_of(data[5], true)[1],
                    experimental_indicator: bits_of(data[5], true)[2],
                    size,
                    frames,
                }),
                Err(e) => Err(e),
            }
        }
    }
}

/// One parsed text frame: a 4-character identifier, the declared body size,
/// two flag bytes, and the decoded text body.
#[derive(Debug)]
pub struct ID3v2Frame {
    pub version: u8,
    pub id: String,
    pub size: usize,
    pub flags: [BitArray; 2],
    pub data: String,
}

impl View for ID3v2Frame {
    type V = FrameModel;

    open spec fn view(&self) -> FrameModel {
        FrameModel {
            version: self.version,
            id: self.id@,
            size: self.size as int,
            status_flags: self.flags@[0].bits@,
            format_flags: self.flags@[1].bits@,
            data: self.data@,
        }
    }
}

/// The frames of `s`, each reduced to its mathematical content.
pub open spec fn frames_model(s: Seq<ID3v2Frame>) -> Seq<FrameModel> {
    s.map_values(|f: ID3v2Frame| f@)
}

/// A parsed frame-based tag: the header fields and the text frames found
/// within the declared extent.
#[derive(Debug)]
pub struct ID3v2 {
    pub id3_version: u8,
    pub id3_revision: u8,
    pub unsynchronization: bool,
    pub extended_header: bool,
    pub experimental_indicator: bool,
    pub size: usize,
    pub frames: Vec<ID3v2Frame>,
}

impl View for ID3v2 {
    type V = Id3v2Model;

    open spec fn view(&self) -> Id3v2Model {
        Id3v2Model {
            version: self.id3_version,
            revision: self.id3_revision,
            unsynchronization: self.unsynchronization,
            extended_header: self.extended_header,
            experimental_indicator: self.experimental_indicator,
            size: self.size as int,
            frames: frames_model(self.frames@),
        }
    }
}

/// Reads a big-endian 32-bit integer from a 4-byte slice.
pub fn read_be_u32(bytes: &[u8]) -> (r: u32)
    requires
        bytes@.len() == 4,
    ensures
        r == be32_val(bytes@),
{
    (bytes[0] as u32) * 0x1000000 + (bytes[1] as u32) * 0x10000 + (bytes[2] as u32) * 0x100
        + bytes[3] as u32
}

impl ID3v2 {
    /// Decodes a 4-byte synchsafe integer: only the low 7 bits of each byte
    /// count, so the value is below `0x1000_0000`.
    pub fn calculate_size(bytes: &[u8]) -> (r: usize)
        requires
            bytes@.len() == 4,
        ensures
            r == synchsafe_val(bytes@),
            r < 0x10000000,
    {
        proof {
            assert(forall|x: u8| #[trigger] (x & 0x7f) < 0x80) by (bit_vector);
        }
        (((bytes[3] & 0x7f) as u32) + ((bytes[2] & 0x7f) as u32) * 0x80
            + ((bytes[1] & 0x7f) as u32) * 0x4000 + ((bytes[0] & 0x7f) as u32) * 0x200000) as usize
    }

    /// Parses the frame-based tag at the start of `file_data`, exactly as
    /// [`parse_id3v2_spec`] describes, reading nothing past the declared
    /// extent.
    pub fn create_from_binary(file_data: &[u8]) -> (r: Result<ID3v2, TagError>)
        ensures
            match r {
                Ok(tag) => parse_id3v2_spec(file_data@) == Ok::<Id3v2Model, TagError>(tag@),
                Err(e) => parse_id3v2_spec(file_data@) == Err::<Id3v2Model, TagError>(e),
            },
    {
        if file_data.len() < 3 || !(file_data[0] == 73 && file_data[1] == 68
            && file_data[2] == 51) {
            return Err(TagError::NotFound);
        }
        if file_data.len() < 10 {
            return Err(TagError::ParseError);
        }
        let id3_version = file_data[3];
        if id3_version != 3 && id3_version != 4 {
            return Err(TagError::UnsupportedVersion);
        }
        let id3_revision = file_data[4];
        let header_flags = BitArray::create_from_byte(file_data[5], true);
        let size = ID3v2::calculate_size(slice_subrange(file_data, 6, 10));
        if file_data.len() < 10 + size {
            return Err(TagError::ParseError);
        }
        let end: usize = 10 + size;
        let mut frames: Vec<ID3v2Frame> = Vec::new();
        let mut offset: usize = 10;
        loop
            invariant
                10 <= offset <= end,
                end == 10 + size,
                end <= file_data@.len(),
                frame_tag_present(file_data@),
                size == synchsafe_val(file_data@.subrange(6, 10)),
                size < 0x10000000,
                id3_version == file_data@[3],
                id3_version == 3 || id3_version == 4,
                match parse_frames_spec(file_data@, offset as int, end as int, id3_version) {
                    Ok(rest) => parse_frames_spec(file_data@, 10, end as int, id3_version)
                        == Ok::<Seq<FrameModel>, TagError>(frames_model(frames@) + rest),
                    Err(e) => parse_frames_spec(file_data@, 10, end as int, id3_version)
                        == Err::<Seq<FrameModel>, TagError>(e),
                },
            ensures
                offset + 10 > end || file_data@[offset as int] == 0,
            decreases end - offset,
        {
            if offset + 10 > end {
                break;
            }
            if file_data[offset] == 0 {
                break;
            }
            let ghost data = file_data@;
            let ghost old_off = offset as int;
            let ghost old_frames = frames@;
            let fsize: usize = if id3_version == 4 {
                ID3v2::calculate_size(slice_subrange(file_data, offset + 4, offset + 8))
            } else {
                read_be_u32(slice_subrange(file_data, offset + 4, offset + 8)) as usize
            };
            proof {
                assert(fsize == frame_size_spec(data, old_off, id3_version));
            }
            if fsize == 0 {
                proof {
                    assert(parse_frames_spec(data, old_off, end as int, id3_version)
                        == Err::<Seq<FrameModel>, TagError>(TagError::ParseError));
                }
                return Err(TagError::ParseError);
            }
            if fsize > end - offset - 10 {
                proof {
                    assert(old_off + 10 + fsize > end);
                    assert(parse_frames_spec(data, old_off, end as int, id3_version)
                        == Err::<Seq<FrameModel>, TagError>(TagError::ParseError));
                }
                return Err(TagError::ParseError);
            }
            let id = decode_latin1(slice_subrange(file_data, offset, offset + 4));
            let status_flags = BitArray::create_from_byte(file_data[offset + 8], true);
            let format_flags = BitArray::create_from_byte(file_data[offset + 9], true);
            if file_data[offset] == 84 {
                let frame_bytes = slice_subrange(file_data, offset, offset + 10 + fsize);
                let parsed = ID3v2Frame::create_from_bytes(
                    frame_bytes,
                    id3_version,
                    id,
                    fsize,
                    [status_flags, format_flags],
                );
                proof {
                    assert(frame_bytes@.subrange(11, 10 + fsize as int)
                        =~= data.subrange(old_off + 11, old_off + 10 + fsize));
                    assert(frame_bytes@[10] == data[old_off + 10]);
                    assert(frame_bytes@[0] == data[old_off]);
                }
                match parsed {
                    Ok(f) => {
                        proof {
                            assert(f@ =~= frame_model_at(data, old_off, id3_version, f@.data));
                        }
                        frames.push(f);
                    },
                    Err(e) => {
                        proof {
                            assert(parse_frames_spec(data, old_off, end as int, id3_version)
                                == Err::<Seq<FrameModel>, TagError>(e));
                        }
                        return Err(e);
                    },
                }
            }
            offset = offset + 10 + fsize;
            proof {
                let new_off = offset as int;
                let gend = end as int;
                if data[old_off] == 84 {
                    let text = decode_text_spec(
                        data.subrange(old_off + 11, old_off + 10 + fsize),
                        data[old_off + 10],
                    )->Ok_0;
                    let fm = frame_model_at(data, old_off, id3_version, text);
                    assert(frames@ =~= old_frames.push(frames@[frames@.len() - 1]));
                    assert(frames_model(frames@) =~= frames_model(old_frames)
                        + seq![frames@[frames@.len() - 1]@]);
                    match parse_frames_spec(data, new_off, gend, id3_version) {
                        Ok(rest) => {
                            assert(parse_frames_spec(data, old_off, gend, id3_version)
                                == Ok::<Seq<FrameModel>, TagError>(seq![fm] + rest));
                            assert(frames_model(frames@) + rest
                                =~= frames_model(old_frames) + (seq![fm] + rest));
                        },
                        Err(_) => {},
                    }
                } else {
                    assert(parse_frames_spec(data, old_off, gend, id3_version)
                        == parse_frames_spec(data, new_off, gend, id3_version));
                }
            }
        }
        proof {
            assert(parse_frames_spec(file_data@, offset as int, end as int, id3_version)
                == Ok::<Seq<FrameModel>, TagError>(Seq::empty()));
            assert(frames_model(frames@) + Seq::<FrameModel>::empty() =~= frames_model(frames@));
        }
        let result = ID3v2 {
            id3_version,
            id3_revision,
            unsynchronization: header_flags.bits[0],
            extended_header: header_flags.bits[1],
            experimental_indicator: header_flags.bits[2],
            size,
            frames,
        };
        proof {
            assert(result@ =~= parse_id3v2_spec(file_data@)->Ok_0);
        }
        Ok(result)
    }
}

impl ID3v2Frame {
    /// Builds one frame from its full byte extent: `bytes` holds the 10-byte
    /// frame header followed by the `size`-byte body. A frame whose first
    /// identifier byte is not `'T'` is an `UnsupportedFrame`; a text frame's
    /// body is decoded under the encoding named by its first byte.
    pub fn create_from_bytes(
        bytes: &[u8],
        version: u8,
        id: String,
        size: usize,
        flags: [BitArray; 2],
    ) -> (r: Result<ID3v2Frame, TagError>)
        requires
            bytes@.len() == 10 + size,
            size >= 1,
        ensures
            match r {
                Ok(f) => {
                    &&& bytes@[0] == 84
                    &&& decode_text_spec(bytes@.subrange(11, 10 + size as int), bytes@[10])
                        == Ok::<Seq<char>, TagError>(f@.data)
                    &&& f@.version == version
                    &&& f@.id == id@
                    &&& f@.size == size
                    &&& f@.status_flags == flags@[0].bits@
                    &&& f@.format_flags == flags@[1].bits@
                },
                Err(e) => (bytes@[0] != 84 && e == TagError::UnsupportedFrame) || (bytes@[0] == 84
                    && decode_text_spec(bytes@.subrange(11, 10 + size as int), bytes@[10])
                        == Err::<Seq<char>, TagError>(e)),
            },
    {
        if bytes[0] != 84 {
            return Err(TagError::UnsupportedFrame);
        }
        let encoding = bytes[10];
        let body = slice_subrange(bytes, 11, bytes.len());
        let data = match ID3v2Frame::decode_text_frame(body, encoding) {
            Ok(text) => text,
            Err(e) => {
                return Err(e);
            },
        };
        Ok(ID3v2Frame { version, id, size, flags, data })
    }

    /// Decodes a text frame body under the declared encoding identifier,
    /// exactly as [`decode_text_spec`] describes.
    pub fn decode_text_frame(text_bytes: &[u8], encoding: u8) -> (r: Result<String, TagError>)
        ensures
            match r {
                Ok(s) => decode_text_spec(text_bytes@, encoding)
                    == Ok::<Seq<char>, TagError>(s@),
                Err(e) => decode_text_spec(text_bytes@, encoding)
                    == Err::<Seq<char>, TagError>(e),
            },
    {
        if encoding == 0 {
            Ok(decode_latin1(text_bytes))
        } else if encoding == 1 {
            if text_bytes.len() >= 2 && text_bytes[0] == 0xfe && text_bytes[1] == 0xff {
                proof {
                    assert(text_bytes@.subrange(2, text_bytes@.len() as int)
                        =~= text_bytes@.skip(2));
                }
                match decode_utf16be(slice_subrange(text_bytes, 2, text_bytes.len())) {
                    Some(s) => Ok(s),
                    None => Err(TagError::DecodeError),
                }
            } else if text_bytes.len() >= 2 && text_bytes[0] == 0xff && text_bytes[1] == 0xfe {
                proof {
                    assert(text_bytes@.subrange(2, text_bytes@.len() as int)
                        =~= text_bytes@.skip(2));
                }
                match decode_utf16le(slice_subrange(text_bytes, 2, text_bytes.len())) {
                    Some(s) => Ok(s),
                    None => Err(TagError::DecodeError),
                }
            } else {
                Err(TagError::DecodeError)
            }
        } else if encoding == 2 {
            match decode_utf16be(text_bytes) {
                Some(s) => Ok(s),
                None => Err(TagError::DecodeError),
            }
        } else if encoding == 3 {
            match decode_utf8_bytes(text_bytes) {
                Some(s) => Ok(s),
                None => Err(TagError::DecodeError),
            }
        } else {
            Err(TagError::UnsupportedEncoding)
        }
    }

    /// Translates a frame identifier to a human-readable field name. No
    /// identifier is mapped to a name, so every lookup yields the empty
    /// string.
    pub fn id_to_fieldname(id: &str) -> (r: String)
        ensures
            r@ == Seq::<char>::empty(),
    {
        String::new()
    }
}

/// Frame iteration over `[off, end)` reads nothing at or beyond `end`:
/// two buffers that agree below `end` are iterated alike.
proof fn lemma_parse_frames_reads_below_end(
    d1: Seq<u8>,
    d2: Seq<u8>,
    off: int,
    end: int,
    version: u8,
)
    requires
            0 <= off,
            end <= d1.len(),
            end <= d2.len(),
            forall|i: int| 0 <= i < end ==> d1[i] == d2[i],
        ensures
            parse_frames_spec(d1, off, end, version) == parse_frames_spec(d2, off, end, version),
        decreases end - off,
    {
        if off + 10 > end {
        } else if d1[off] == 0 {
        } else {
            assert(d1.subrange(off + 4, off + 8) =~= d2.subrange(off + 4, off + 8));
            let fsize = frame_size_spec(d1, off, version);
            assert(frame_size_spec(d2, off, version) == fsize);
            if fsize <= 0 || off + 10 + fsize > end {
            } else {
                lemma_parse_frames_reads_below_end(d1, d2, off + 10 + fsize, end, version);
                if d1[off] == 84 {
                    assert(d1.subrange(off + 11, off + 10 + fsize)
                        =~= d2.subrange(off + 11, off + 10 + fsize));
                    assert(d1.subrange(off, off + 4) =~= d2.subrange(off, off + 4));
                    assert(forall|text: Seq<char>|
                        frame_model_at(d1, off, version, text)
                            == frame_model_at(d2, off, version, text));
                }
            }
        }
    }

/// Law: a frame-based tag with declared size `S` is parsed from the bytes
/// below offset `10 + S` alone — two buffers that agree on that region
/// parse to the very same outcome, so nothing past the declared extent is
/// ever read.
pub proof fn lemma_parse_reads_only_declared_extent(d1: Seq<u8>, d2: Seq<u8>)
        requires
            d1.len() >= 10,
            d2.len() >= 10,
            10 + synchsafe_val(d1.subrange(6, 10)) <= d1.len(),
            10 + synchsafe_val(d1.subrange(6, 10)) <= d2.len(),
            d1.subrange(0, 10 + synchsafe_val(d1.subrange(6, 10)))
                == d2.subrange(0, 10 + synchsafe_val(d1.subrange(6, 10))),
        ensures
            parse_id3v2_spec(d1) == parse_id3v2_spec(d2),
    {
        let size = synchsafe_val(d1.subrange(6, 10));
        let end = 10 + size;
        assert forall|i: int| 0 <= i < end implies d1[i] == d2[i] by {
            assert(d1.subrange(0, end)[i] == d2.subrange(0, end)[i]);
        }
        assert(d1.subrange(6, 10) =~= d2.subrange(6, 10));
        if frame_tag_present(d1) && (d1[3] == 3 || d1[3] == 4) {
            lemma_parse_frames_reads_below_end(d1, d2, 10, end, d1[3]);
        }
    }

} // verus!

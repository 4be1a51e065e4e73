//! The frame-geometry handshake.
//!
//! Before any frame data flows, the producer tells the receiver once what it
//! captures: width, height and the name of the pixel format. On the wire
//! that is sixteen bytes of fixed fields and then the name:
//!
//! ```text
//! 0..4    width, big-endian, signed
//! 4..8    height, big-endian, signed
//! 8..16   length of the name in bytes, big-endian, unsigned
//! 16..    the name, UTF-8
//! ```
//!
//! There is no padding and no version byte. The functions here turn a
//! geometry into those bytes and back; moving the bytes through the pipe is
//! the caller's part.

use crate::wire::{
    be_bytes, be_value, get_be_u32, get_be_u64, i32_from_field, i32_of_unsigned, i32_to_field,
    lemma_be_bytes_len, lemma_be_bytes_of_value, lemma_be_value_bound, lemma_be_value_of_bytes,
    lemma_span_of_fields, put_be_u32, put_be_u64, unsigned_of_i32,
};
use vstd::prelude::*;
use vstd::slice::{slice_subrange, slice_to_vec};
use vstd::string::*;
use vstd::utf8::*;

verus! {

/// Length of the fixed part of the handshake.
pub const HEADER_LEN: usize = 16;

/// What the producer captures: the size of a frame and its pixel format.
#[derive(Clone, Debug, PartialEq, Eq)]
pub struct FrameGeometry {
    pub width: i32,
    pub height: i32,
    pub format: String,
}

/// A geometry as contracts see it: the format as a sequence of characters.
pub struct GeometryView {
    pub width: i32,
    pub height: i32,
    pub format: Seq<char>,
}

impl View for FrameGeometry {
    type V = GeometryView;

    open spec fn view(&self) -> GeometryView {
        GeometryView { width: self.width, height: self.height, format: self.format@ }
    }
}

impl GeometryView {
    /// The format name's bytes on the wire.
    pub open spec fn format_bytes(self) -> Seq<u8> {
        encode_utf8(self.format)
    }

    /// The name's length can be written in the eight bytes of its prefix.
    pub open spec fn fits_length_prefix(self) -> bool {
        self.format_bytes().len() <= u64::MAX
    }

    /// A geometry that a capture can have: both sides positive and the
    /// format named.
    pub open spec fn valid(self) -> bool {
        &&& self.width > 0
        &&& self.height > 0
        &&& self.format.len() > 0
    }

    /// The handshake bytes for this geometry.
    pub open spec fn encoded(self) -> Seq<u8> {
        be_bytes(unsigned_of_i32(self.width), 4) + be_bytes(unsigned_of_i32(self.height), 4)
            + be_bytes(self.format_bytes().len(), 8) + self.format_bytes()
    }
}

/// The fixed fields of a handshake.
#[derive(Clone, Copy, Debug, PartialEq, Eq)]
pub struct Header {
    pub width: i32,
    pub height: i32,
    /// Length in bytes of the format name that follows.
    pub format_len: u64,
}

/// Why a byte string is no handshake.
#[derive(Clone, Copy, Debug, PartialEq, Eq)]
pub enum DecodeError {
    /// The input ended inside the sixteen fixed bytes.
    HeaderTruncated { available: u64 },
    /// The input ended before the declared number of name bytes.
    FormatTruncated { declared: u64, available: u64 },
    /// The name's bytes are not UTF-8.
    InvalidUtf8,
}

/// The fixed fields that the first sixteen bytes of `bytes` hold.
pub open spec fn header_of(bytes: Seq<u8>) -> Header
    recommends
        bytes.len() >= HEADER_LEN,
{
    Header {
        width: i32_of_unsigned(be_value(bytes.subrange(0, 4))),
        height: i32_of_unsigned(be_value(bytes.subrange(4, 8))),
        format_len: be_value(bytes.subrange(8, 16)) as u64,
    }
}

/// What `name_bytes`, the bytes after a header, give together with it. Only
/// the first `format_len` of them belong to the handshake.
pub open spec fn completed(header: Header, name_bytes: Seq<u8>) -> Result<
    GeometryView,
    DecodeError,
> {
    if name_bytes.len() < header.format_len {
        Err(
            DecodeError::FormatTruncated {
                declared: header.format_len,
                available: name_bytes.len() as u64,
            },
        )
    } else {
        let name = name_bytes.subrange(0, header.format_len as int);
        if valid_utf8(name) {
            Ok(
                GeometryView {
                    width: header.width,
                    height: header.height,
                    format: decode_utf8(name),
                },
            )
        } else {
            Err(DecodeError::InvalidUtf8)
        }
    }
}

/// What the handshake at the start of `bytes` says, or why there is none.
/// Bytes after the name are frame data and have no part in it.
pub open spec fn decoded(bytes: Seq<u8>) -> Result<GeometryView, DecodeError> {
    if bytes.len() < HEADER_LEN {
        Err(DecodeError::HeaderTruncated { available: bytes.len() as u64 })
    } else {
        completed(header_of(bytes), bytes.subrange(HEADER_LEN as int, bytes.len() as int))
    }
}

/// Length of the handshake at the start of `bytes`: where frame data begins.
pub open spec fn handshake_len(bytes: Seq<u8>) -> nat
    recommends
        bytes.len() >= HEADER_LEN,
{
    HEADER_LEN as nat + header_of(bytes).format_len as nat
}

/// `result` is `expected`, the geometry taken by its view.
pub open spec fn agrees(
    result: Result<FrameGeometry, DecodeError>,
    expected: Result<GeometryView, DecodeError>,
) -> bool {
    match result {
        Ok(geometry) => expected == Ok::<GeometryView, DecodeError>(geometry@),
        Err(error) => expected == Err::<GeometryView, DecodeError>(error),
    }
}

impl FrameGeometry {
    /// A geometry of the given size and format, if a capture can have it:
    /// `None` where a side is not positive or the format has no name.
    pub fn new(width: i32, height: i32, format: String) -> (made: Option<FrameGeometry>)
        ensures
            made is Some <==> width > 0 && height > 0 && format@.len() > 0,
            made matches Some(geometry) ==> geometry.width == width && geometry.height == height
                && geometry.format@ == format@ && geometry@.valid(),
    {
        if width > 0 && height > 0 && !format.as_str().is_empty() {
            Some(FrameGeometry { width, height, format })
        } else {
            None
        }
    }

    /// Whether a capture can have this geometry.
    pub fn is_valid(&self) -> (valid: bool)
        ensures
            valid == self@.valid(),
    {
        self.width > 0 && self.height > 0 && !self.format.as_str().is_empty()
    }

    /// Number of bytes that `encode` gives for this geometry, unless that
    /// number is beyond `usize`.
    pub fn encoded_len(&self) -> (len: Option<usize>)
        ensures
            len is Some <==> self@.encoded().len() <= usize::MAX,
            len matches Some(n) ==> n == self@.encoded().len(),
            self@.fits_length_prefix(),
    {
        proof {
            lemma_encoded_len(self@);
        }
        self.format.as_str().as_bytes().len().checked_add(HEADER_LEN)
    }
}

impl DecodeError {
    /// What went wrong, in words for the user.
    pub fn describe(&self) -> (text: String)
        ensures
            text@ == match *self {
                DecodeError::HeaderTruncated { .. } => "handshake ended inside its fixed fields"@,
                DecodeError::FormatTruncated { .. } => "handshake ended inside the format name"@,
                DecodeError::InvalidUtf8 => "format name is not valid UTF-8"@,
            },
    {
        match self {
            DecodeError::HeaderTruncated { .. } => {
                "handshake ended inside its fixed fields".to_owned()
            },
            DecodeError::FormatTruncated { .. } => {
                "handshake ended inside the format name".to_owned()
            },
            DecodeError::InvalidUtf8 => "format name is not valid UTF-8".to_owned(),
        }
    }
}

/// `String::from_utf8` of std: the bytes as a string where they are
/// well-formed UTF-8, and nothing where they are not. The string then holds
/// the characters that the bytes encode.
#[verifier::external_body]
fn string_from_utf8(bytes: Vec<u8>) -> (text: Option<String>)
    ensures
        text is Some <==> valid_utf8(bytes@),
        text matches Some(s) ==> s@ == decode_utf8(bytes@),
{
    match String::from_utf8(bytes) {
        Ok(s) => Some(s),
        Err(_) => None,
    }
}

/// Appends the bytes of `src` to `out`.
fn append_bytes(out: &mut Vec<u8>, src: &[u8])
    ensures
        final(out)@ == old(out)@ + src@,
{
    let mut i: usize = 0;
    while i < src.len()
        invariant
            i <= src.len(),
            out@ == old(out)@ + src@.subrange(0, i as int),
        decreases src.len() - i,
    {
        out.push(src[i]);
        i += 1;
    }
}

/// The handshake for `geometry`: width, height, the length of the format
/// name and the name itself.
pub fn encode(geometry: &FrameGeometry) -> (bytes: Vec<u8>)
    ensures
        bytes@ == geometry@.encoded(),
        geometry@.fits_length_prefix(),
{
    let name = geometry.format.as_str().as_bytes();
    let mut bytes: Vec<u8> = Vec::new();
    put_be_u32(&mut bytes, i32_to_field(geometry.width));
    put_be_u32(&mut bytes, i32_to_field(geometry.height));
    put_be_u64(&mut bytes, name.len() as u64);
    append_bytes(&mut bytes, name);
    bytes
}

/// Reads the fixed fields from the first sixteen bytes of `bytes`. Fails
/// only where there are fewer than sixteen.
pub fn parse_header(bytes: &[u8]) -> (parsed: Result<Header, DecodeError>)
    ensures
        bytes@.len() < HEADER_LEN ==> parsed == Err::<Header, DecodeError>(
            DecodeError::HeaderTruncated { available: bytes@.len() as u64 },
        ),
        bytes@.len() >= HEADER_LEN ==> parsed == Ok::<Header, DecodeError>(header_of(bytes@)),
{
    if bytes.len() < HEADER_LEN {
        return Err(DecodeError::HeaderTruncated { available: bytes.len() as u64 });
    }
    let width = i32_from_field(get_be_u32(bytes, 0));
    let height = i32_from_field(get_be_u32(bytes, 4));
    let format_len = get_be_u64(bytes, 8);
    Ok(Header { width, height, format_len })
}

/// Completes a header with the bytes that follow it. The first
/// `header.format_len` bytes of `name_bytes` are the format name; the
/// handshake is truncated where there are fewer, and malformed where the
/// name is not UTF-8.
pub fn complete(header: Header, name_bytes: &[u8]) -> (geometry: Result<
    FrameGeometry,
    DecodeError,
>)
    ensures
        agrees(geometry, completed(header, name_bytes@)),
{
    let available = name_bytes.len();
    if (available as u64) < header.format_len {
        return Err(
            DecodeError::FormatTruncated {
                declared: header.format_len,
                available: available as u64,
            },
        );
    }
    let name = slice_to_vec(slice_subrange(name_bytes, 0, header.format_len as usize));
    match string_from_utf8(name) {
        Some(format) => Ok(FrameGeometry { width: header.width, height: header.height, format }),
        None => Err(DecodeError::InvalidUtf8),
    }
}

/// Decodes the handshake at the start of `bytes` and says where it ends:
/// the index of the first byte of frame data.
pub fn decode_prefix(bytes: &[u8]) -> (found: Result<(FrameGeometry, usize), DecodeError>)
    ensures
        match found {
            Ok((geometry, rest)) => decoded(bytes@) == Ok::<GeometryView, DecodeError>(geometry@)
                && rest == handshake_len(bytes@) && rest <= bytes@.len(),
            Err(error) => decoded(bytes@) == Err::<GeometryView, DecodeError>(error),
        },
{
    let header = match parse_header(bytes) {
        Ok(header) => header,
        Err(error) => {
            return Err(error);
        },
    };
    let name_bytes = slice_subrange(bytes, HEADER_LEN, bytes.len());
    match complete(header, name_bytes) {
        Ok(geometry) => Ok((geometry, HEADER_LEN + header.format_len as usize)),
        Err(error) => Err(error),
    }
}

/// Decodes the handshake at the start of `bytes`.
///
/// Fails where `bytes` has fewer than sixteen bytes, fewer bytes after those
/// than the length field declares, or a format name that is not UTF-8, and
/// in no other case. Nothing beyond the name is looked at.
pub fn decode(bytes: &[u8]) -> (geometry: Result<FrameGeometry, DecodeError>)
    ensures
        agrees(geometry, decoded(bytes@)),
{
    match decode_prefix(bytes) {
        Ok((geometry, _)) => Ok(geometry),
        Err(error) => Err(error),
    }
}

/// A handshake is sixteen bytes longer than its format name.
pub proof fn lemma_encoded_len(geometry: GeometryView)
    ensures
        geometry.encoded().len() == HEADER_LEN + geometry.format_bytes().len(),
{
    lemma_be_bytes_len(unsigned_of_i32(geometry.width), 4);
    lemma_be_bytes_len(unsigned_of_i32(geometry.height), 4);
    lemma_be_bytes_len(geometry.format_bytes().len(), 8);
}

/// Round trip: decoding the handshake of a geometry gives that geometry
/// back, and takes all of its bytes. This holds of every geometry whose
/// format name fits the length prefix, as that of every geometry in memory
/// does, valid or not.
pub proof fn lemma_decode_encode(geometry: GeometryView)
    requires
        geometry.fits_length_prefix(),
    ensures
        decoded(geometry.encoded()) == Ok::<GeometryView, DecodeError>(geometry),
        handshake_len(geometry.encoded()) == geometry.encoded().len(),
{
    let bytes = geometry.encoded();
    let width = be_bytes(unsigned_of_i32(geometry.width), 4);
    let height = be_bytes(unsigned_of_i32(geometry.height), 4);
    let name = geometry.format_bytes();
    let len = be_bytes(name.len(), 8);
    lemma_be_bytes_len(unsigned_of_i32(geometry.width), 4);
    lemma_be_bytes_len(unsigned_of_i32(geometry.height), 4);
    lemma_be_bytes_len(name.len(), 8);
    assert(bytes.subrange(0, 4) =~= width);
    assert(bytes.subrange(4, 8) =~= height);
    assert(bytes.subrange(8, 16) =~= len);
    lemma_span_of_fields();
    lemma_be_value_of_bytes(unsigned_of_i32(geometry.width), 4);
    lemma_be_value_of_bytes(unsigned_of_i32(geometry.height), 4);
    lemma_be_value_of_bytes(name.len(), 8);
    let rest = bytes.subrange(HEADER_LEN as int, bytes.len() as int);
    assert(rest.subrange(0, name.len() as int) =~= name);
    encode_utf8_valid_utf8(geometry.format);
    encode_utf8_decode_utf8(geometry.format);
}

/// Truncation: input that ends inside the fixed fields, or before the
/// declared end of the format name, is never decoded.
pub proof fn lemma_truncated_is_rejected(bytes: Seq<u8>)
    requires
        bytes.len() < HEADER_LEN || bytes.len() < handshake_len(bytes),
    ensures
        decoded(bytes) is Err,
        bytes.len() < HEADER_LEN ==> decoded(bytes) is Err && decoded(bytes)->Err_0
            is HeaderTruncated,
        bytes.len() >= HEADER_LEN ==> decoded(bytes) is Err && decoded(bytes)->Err_0
            is FormatTruncated,
{
}

/// What follows a handshake has no part in it: frame data after the name
/// changes neither what is decoded nor where the handshake ends.
pub proof fn lemma_frame_data_is_ignored(bytes: Seq<u8>, frames: Seq<u8>)
    requires
        decoded(bytes) is Ok,
    ensures
        decoded(bytes + frames) == decoded(bytes),
        handshake_len(bytes + frames) == handshake_len(bytes),
{
    let longer = bytes + frames;
    assert(longer.subrange(0, 4) =~= bytes.subrange(0, 4));
    assert(longer.subrange(4, 8) =~= bytes.subrange(4, 8));
    assert(longer.subrange(8, 16) =~= bytes.subrange(8, 16));
    let n = header_of(bytes).format_len as int;
    let rest = bytes.subrange(HEADER_LEN as int, bytes.len() as int);
    let longer_rest = longer.subrange(HEADER_LEN as int, longer.len() as int);
    assert(longer_rest.subrange(0, n) =~= rest.subrange(0, n));
}

/// A handshake is the only way to write its geometry: where bytes decode,
/// encoding what they gave yields those very bytes again, up to the end of
/// the handshake.
pub proof fn lemma_encode_decode(bytes: Seq<u8>)
    requires
        decoded(bytes) is Ok,
    ensures
        handshake_len(bytes) <= bytes.len(),
        decoded(bytes)->Ok_0.encoded() == bytes.subrange(0, handshake_len(bytes) as int),
        decoded(bytes)->Ok_0.fits_length_prefix(),
{
    let geometry = decoded(bytes)->Ok_0;
    let header = header_of(bytes);
    let width = bytes.subrange(0, 4);
    let height = bytes.subrange(4, 8);
    let len = bytes.subrange(8, 16);
    let rest = bytes.subrange(HEADER_LEN as int, bytes.len() as int);
    let name = rest.subrange(0, header.format_len as int);
    lemma_span_of_fields();
    lemma_be_value_bound(width);
    lemma_be_value_bound(height);
    lemma_be_value_bound(len);
    lemma_be_bytes_of_value(width);
    lemma_be_bytes_of_value(height);
    lemma_be_bytes_of_value(len);
    decode_utf8_encode_utf8(name);
}

/// No handshake is the beginning of another: what is left of a handshake
/// when its end is cut off, by however little, is never decoded.
pub proof fn lemma_cut_handshake_is_rejected(geometry: GeometryView, kept: int)
    requires
        geometry.fits_length_prefix(),
        0 <= kept < geometry.encoded().len(),
    ensures
        decoded(geometry.encoded().subrange(0, kept)) is Err,
{
    let bytes = geometry.encoded();
    let cut = bytes.subrange(0, kept);
    lemma_decode_encode(geometry);
    if kept >= HEADER_LEN {
        assert(cut.subrange(8, 16) =~= bytes.subrange(8, 16));
    }
}

} // verus!

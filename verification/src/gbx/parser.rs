//! The parser for GBX files.
//!
//! The data types it produces are defined in [`crate::gbx`], with [`GBX`] the main one.
pub mod challenge;
pub mod replay;

use crate::gbx::{GBXBinaryHeader, GBXModel, GBXOrigin, OriginModel, GBX};
use crate::gbx::parser::challenge::{challenge_from_events, parse_challenge_header_xml};
use crate::gbx::parser::replay::{parse_replay_xml, replay_from_events};
use crate::text::string_from_utf8;
use crate::xml_stream::xml_document;
use vstd::prelude::*;
use vstd::slice::{slice_subrange, slice_to_vec};
use vstd::utf8::{decode_utf8, decode_utf8_encode_utf8, encode_utf8, valid_utf8};

verus! {

/// Makes `std::io::Error` known to Verus as an opaque type; nothing is claimed of its values.
#[verifier::external_type_specification]
#[verifier::external_body]
pub struct ExIoError(std::io::Error);

/// Why a GBX file could not be read.
#[derive(Debug)]
pub enum ParseError {
    MissingGBXMagic,
    FileTooShort,
    HeaderNotFound,
    ThumbnailNotFound,
    XMLParseError(xml::reader::Error),
    HeaderValueError(std::num::ParseIntError),
    HeaderTryIntoEnumError(String),
    IOError(std::io::Error),
    Unknown,
}

/// The model of a [`ParseError`]: the kind of error with what it carries (texts by their characters).
pub enum ParseErrorView {
    MissingGBXMagic,
    FileTooShort,
    HeaderNotFound,
    ThumbnailNotFound,
    XMLParseError(xml::reader::Error),
    HeaderValueError(std::num::ParseIntError),
    HeaderTryIntoEnumError(Seq<char>),
    IOError(std::io::Error),
    Unknown,
}

impl View for ParseError {
    type V = ParseErrorView;

    open spec fn view(&self) -> ParseErrorView {
        match self {
            ParseError::MissingGBXMagic => ParseErrorView::MissingGBXMagic,
            ParseError::FileTooShort => ParseErrorView::FileTooShort,
            ParseError::HeaderNotFound => ParseErrorView::HeaderNotFound,
            ParseError::ThumbnailNotFound => ParseErrorView::ThumbnailNotFound,
            ParseError::XMLParseError(e) => ParseErrorView::XMLParseError(*e),
            ParseError::HeaderValueError(e) => ParseErrorView::HeaderValueError(*e),
            ParseError::HeaderTryIntoEnumError(m) => ParseErrorView::HeaderTryIntoEnumError(m@),
            ParseError::IOError(e) => ParseErrorView::IOError(*e),
            ParseError::Unknown => ParseErrorView::Unknown,
        }
    }
}

/// Whether `needle` occurs in `buf` at offset `i`.
pub open spec fn matches_at(buf: Seq<u8>, needle: Seq<u8>, i: int) -> bool {
    0 <= i && i + needle.len() <= buf.len() && buf.subrange(i, i + needle.len()) == needle
}

/// Whether `i` is the offset of the first occurrence of `needle` in `buf`.
pub open spec fn is_first_match(buf: Seq<u8>, needle: Seq<u8>, i: int) -> bool {
    &&& matches_at(buf, needle, i)
    &&& forall|j: int| 0 <= j < i ==> !#[trigger] matches_at(buf, needle, j)
}

/// The offset of the first occurrence of `needle` in `buf`, if there is one.
pub open spec fn first_match(buf: Seq<u8>, needle: Seq<u8>) -> Option<int> {
    if exists|i: int| #[trigger] is_first_match(buf, needle, i) {
        Some(choose|i: int| #[trigger] is_first_match(buf, needle, i))
    } else {
        None
    }
}

/// Whether `buf` holds `needle` at offset `i` (which must leave room for it).
fn matches_at_exec(buf: &[u8], needle: &[u8], i: usize) -> (r: bool)
    requires
        i + needle@.len() <= buf@.len(),
    ensures
        r == matches_at(buf@, needle@, i as int),
{
    let n: usize = needle.len();
    let len: usize = buf.len();
    let mut k: usize = 0;
    while k < n
        invariant
            n == needle@.len(),
            len == buf@.len(),
            i + n <= len,
            k <= n,
            forall|m: int| 0 <= m < k ==> buf@[i + m] == needle@[m],
        decreases n - k,
    {
        if buf[i + k] != needle[k] {
            assert(buf@.subrange(i as int, i + n)[k as int] != needle@[k as int]);
            return false;
        }
        k += 1;
    }
    assert(buf@.subrange(i as int, i + n) =~= needle@);
    true
}

/// Finds the first occurrence of a non-empty `needle` in `buf`.
pub fn find_window(buf: &[u8], needle: &[u8]) -> (r: Option<usize>)
    requires
        needle@.len() > 0,
    ensures
        match r {
            Some(i) => is_first_match(buf@, needle@, i as int),
            None => forall|j: int| !#[trigger] matches_at(buf@, needle@, j),
        },
        match r {
            Some(i) => first_match(buf@, needle@) == Some(i as int),
            None => first_match(buf@, needle@) is None,
        },
{
    let n: usize = needle.len();
    let len: usize = buf.len();
    if n > len {
        return None;
    }
    let mut i: usize = 0;
    while i <= len - n
        invariant
            n == needle@.len(),
            len == buf@.len(),
            0 < n <= len,
            i <= len - n + 1,
            forall|j: int| 0 <= j < i ==> !#[trigger] matches_at(buf@, needle@, j),
        decreases len - n + 1 - i,
    {
        if matches_at_exec(buf, needle, i) {
            proof {
                assert(is_first_match(buf@, needle@, i as int));
                let c: int = choose|c: int| #[trigger] is_first_match(buf@, needle@, c);
                if c < i {
                    assert(!matches_at(buf@, needle@, c));
                } else if c > i {
                    assert(!matches_at(buf@, needle@, i as int));
                }
            }
            return Some(i);
        }
        i += 1;
    }
    proof {
        assert forall|i: int| !#[trigger] is_first_match(buf@, needle@, i) by {
            if 0 <= i < len - n + 1 {
            }
        }
    }
    None
}

/// The three bytes `GBX` that open every GBX file.
pub open spec fn gbx_magic() -> Seq<u8> {
    seq![71u8, 66, 88]
}

/// The bytes of `<header ` (with the trailing space), which open the XML header.
pub open spec fn header_start_token() -> Seq<u8> {
    seq![60u8, 104, 101, 97, 100, 101, 114, 32]
}

/// The bytes of `</header>`, which close the XML header.
pub open spec fn header_end_token() -> Seq<u8> {
    seq![60u8, 47, 104, 101, 97, 100, 101, 114, 62]
}

/// The little-endian 16-bit number at offset `i`.
pub open spec fn le_u16(b: Seq<u8>, i: int) -> u16 {
    (b[i] + 256 * b[i + 1]) as u16
}

/// The little-endian 32-bit number at offset `i`.
pub open spec fn le_u32(b: Seq<u8>, i: int) -> u32 {
    (b[i] + 256 * b[i + 1] + 65536 * b[i + 2] + 16777216 * b[i + 3]) as u32
}

/// Whether both ends of the XML header occur in the file.
pub open spec fn header_found(b: Seq<u8>) -> bool {
    first_match(b, header_start_token()) is Some && first_match(b, header_end_token()) is Some
}

/// Offset of the XML header: the first `<header `, or 0 where there is none.
pub open spec fn header_begin(b: Seq<u8>) -> int {
    match first_match(b, header_start_token()) {
        Some(i) => i,
        None => 0,
    }
}

/// Offset just past the first `</header>`, or 0 where there is none.
pub open spec fn header_end(b: Seq<u8>) -> int {
    match first_match(b, header_end_token()) {
        Some(i) => i + header_end_token().len(),
        None => 0,
    }
}

/// The bytes of the XML header: from the first `<header ` to the end of the first
/// `</header>`, or nothing where either is missing.
pub open spec fn header_bytes(b: Seq<u8>) -> Seq<u8> {
    if header_found(b) {
        b.subrange(header_begin(b), header_end(b))
    } else {
        Seq::empty()
    }
}

/// The inputs on which reading a buffer fails without a result: a file that starts with
/// `GBX` but is shorter than its 13-byte binary header, a header whose first `</header>`
/// ends before its first `<header ` starts, or a header that is not UTF-8.
pub open spec fn parse_panics(b: Seq<u8>) -> bool {
    &&& b.len() >= 3
    &&& b.subrange(0, 3) == gbx_magic()
    &&& (b.len() < 13 || (header_found(b) && header_begin(b) > header_end(b)) || !valid_utf8(
        header_bytes(b),
    ))
}

/// The header length: end minus start, taken modulo the `usize` range (a header that is
/// opened and never closed has end 0, and its length wraps around).
pub open spec fn header_length_of(b: Seq<u8>) -> nat {
    if header_end(b) >= header_begin(b) {
        (header_end(b) - header_begin(b)) as nat
    } else {
        (header_end(b) - header_begin(b) + usize::MAX + 1) as nat
    }
}

/// The challenge header read from the XML header, where there is one and it reads as a
/// challenge.
pub open spec fn challenge_header_of(b: Seq<u8>) -> Option<crate::gbx::ChallengeHeaderModel> {
    if header_found(b) {
        match challenge_from_events(xml_document(header_bytes(b))) {
            Ok(m) => Some(m),
            Err(_) => None,
        }
    } else {
        None
    }
}

/// The replay header read from the XML header, where there is one and it reads as a replay.
pub open spec fn replay_header_of(b: Seq<u8>) -> Option<crate::gbx::ReplayHeaderModel> {
    if header_found(b) {
        match replay_from_events(xml_document(header_bytes(b))) {
            Ok(m) => Some(m),
            Err(_) => None,
        }
    } else {
        None
    }
}

/// What reading a buffer gives, on the inputs where [`parse_panics`] does not hold.
pub open spec fn spec_parse_from_buffer(b: Seq<u8>) -> Result<GBXModel, ParseErrorView> {
    if b.len() < 3 {
        Err(ParseErrorView::FileTooShort)
    } else if b.subrange(0, 3) != gbx_magic() {
        Err(ParseErrorView::MissingGBXMagic)
    } else {
        Ok(
            GBXModel {
                origin: OriginModel::Buffer,
                filesize: b.len(),
                header_start: header_begin(b) as nat,
                header_length: header_length_of(b),
                bin_header: GBXBinaryHeader { version: le_u16(b, 3), class_id: le_u32(b, 9) },
                replay_header: replay_header_of(b),
                challenge_header: challenge_header_of(b),
                header_xml: decode_utf8(header_bytes(b)),
            },
        )
    }
}

/// The model of a parse result.
pub open spec fn result_view(r: Result<GBX, ParseError>) -> Result<GBXModel, ParseErrorView> {
    match r {
        Ok(g) => Ok(g@),
        Err(e) => Err(e@),
    }
}

/// A parsed buffer always has origin `Buffer` (never `Hidden`) and its own length as size.
pub proof fn lemma_parse_origin_and_size(b: Seq<u8>)
    ensures
        spec_parse_from_buffer(b) matches Ok(m) ==> m.origin == OriginModel::Buffer
            && m.filesize == b.len(),
{
}

/// The only errors that reading a buffer reports are a too short file and a missing `GBX`
/// at its start; a header that does not read as a replay just leaves the replay header absent.
pub proof fn lemma_parse_errors(b: Seq<u8>)
    ensures
        spec_parse_from_buffer(b) is Err <==> (b.len() < 3 || b.subrange(0, 3) != gbx_magic()),
        spec_parse_from_buffer(b) matches Err(e) ==> (e == ParseErrorView::FileTooShort <==> b.len()
            < 3),
        spec_parse_from_buffer(b) matches Err(e) ==> (e == ParseErrorView::FileTooShort || e
            == ParseErrorView::MissingGBXMagic),
{
}

/// Where both ends of the XML header are found, the `header_xml` text is exactly the bytes
/// from `header_start` to `header_start + header_length`, decoded as UTF-8.
pub proof fn lemma_header_xml_is_header_bytes(b: Seq<u8>)
    requires
        !parse_panics(b),
        header_found(b),
    ensures
        spec_parse_from_buffer(b) matches Ok(m) ==> encode_utf8(m.header_xml) == b.subrange(
            m.header_start as int,
            (m.header_start + m.header_length) as int,
        ),
{
    if let Ok(m) = spec_parse_from_buffer(b) {
        let i: int = choose|i: int| #[trigger] is_first_match(b, header_start_token(), i);
        assert(header_begin(b) >= 0);
        decode_utf8_encode_utf8(header_bytes(b));
    }
}

/// A header that is opened and never closed does not stop the reading: the result has an
/// empty header text, neither a replay nor a challenge header, and a header length that
/// wraps around the `usize` range.
pub proof fn lemma_unclosed_header(b: Seq<u8>)
    requires
        13 <= b.len() <= usize::MAX,
        b.subrange(0, 3) == gbx_magic(),
        first_match(b, header_start_token()) is Some,
        first_match(b, header_end_token()) is None,
    ensures
        !parse_panics(b),
        spec_parse_from_buffer(b) matches Ok(m) && m.header_xml.len() == 0 && m.replay_header is None
            && m.challenge_header is None && m.header_start + m.header_length == usize::MAX + 1,
{
    let i: int = choose|i: int| #[trigger] is_first_match(b, header_start_token(), i);
    assert(matches_at(b, header_start_token(), i));
    assert(header_bytes(b) =~= Seq::<u8>::empty());
    assert(i + 8 <= b.len());
    if i == 0 {
        assert(b.subrange(0, 3)[0] == b[0]);
        assert(b.subrange(i, i + 8)[0] == b[0]);
    }
    assert(header_begin(b) == i);
    assert(decode_utf8(Seq::<u8>::empty()) =~= Seq::<char>::empty());
}

/// A replay header is only ever read from a file whose XML header was found, and then the
/// header length counts the bytes of that XML header.
pub proof fn lemma_replay_header_needs_xml_header(b: Seq<u8>)
    requires
        !parse_panics(b),
    ensures
        spec_parse_from_buffer(b) matches Ok(m) ==> (m.replay_header is Some ==> header_found(b)
            && m.header_length == header_bytes(b).len()),
{
    if header_found(b) {
        let i: int = choose|i: int| #[trigger] is_first_match(b, header_start_token(), i);
        assert(header_begin(b) >= 0);
    }
}

/// The bytes of `<header `.
fn header_start_token_bytes() -> (r: Vec<u8>)
    ensures
        r@ == header_start_token(),
{
    let r: Vec<u8> = vec![60u8, 104, 101, 97, 100, 101, 114, 32];
    assert(r@ =~= header_start_token());
    r
}

/// The bytes of `</header>`.
fn header_end_token_bytes() -> (r: Vec<u8>)
    ensures
        r@ == header_end_token(),
{
    let r: Vec<u8> = vec![60u8, 47, 104, 101, 97, 100, 101, 114, 62];
    assert(r@ =~= header_end_token());
    r
}

/// Parses a buffer as a GBX file, or gives `None` on the inputs where [`parse_from_buffer`]
/// cannot give a result (see [`parse_panics`]).
pub fn try_parse_from_buffer(buffer: &[u8]) -> (r: Option<Result<GBX, ParseError>>)
    ensures
        r is None <==> parse_panics(buffer@),
        r matches Some(res) ==> result_view(res) == spec_parse_from_buffer(buffer@),
{
    let len: usize = buffer.len();
    if len < 3 {
        return Some(Err(ParseError::FileTooShort));
    }
    if !(buffer[0] == 71u8 && buffer[1] == 66u8 && buffer[2] == 88u8) {
        assert(buffer@.subrange(0, 3) != gbx_magic()) by {
            if buffer@.subrange(0, 3) == gbx_magic() {
                assert(buffer@.subrange(0, 3)[0] == 71u8);
                assert(buffer@.subrange(0, 3)[1] == 66u8);
                assert(buffer@.subrange(0, 3)[2] == 88u8);
            }
        }
        return Some(Err(ParseError::MissingGBXMagic));
    }
    assert(buffer@.subrange(0, 3) =~= gbx_magic());
    if len < 13 {
        return None;
    }
    let version: u16 = buffer[3] as u16 + (buffer[4] as u16) * 256;
    let class_id: u32 = buffer[9] as u32 + (buffer[10] as u32) * 256 + (buffer[11] as u32) * 65536
        + (buffer[12] as u32) * 16777216;
    let bin_header = GBXBinaryHeader { version, class_id };
    let start_token = header_start_token_bytes();
    let end_token = header_end_token_bytes();
    let header_start = find_window(buffer, start_token.as_slice());
    let header_end = match find_window(buffer, end_token.as_slice()) {
        Some(x) => Some(x + 9),
        None => None,
    };
    let hs: usize = match header_start {
        Some(x) => x,
        None => 0,
    };
    let he: usize = match header_end {
        Some(x) => x,
        None => 0,
    };
    let found = header_start.is_some() && header_end.is_some();
    if found && hs > he {
        return None;
    }
    let mut header_xml_bytes: Vec<u8> = Vec::new();
    let mut replay_header: Option<crate::gbx::ReplayXMLHeader> = None;
    let mut challenge_header: Option<crate::gbx::ChallengeXMLHeader> = None;
    if found {
        let slice = slice_subrange(buffer, hs, he);
        header_xml_bytes = slice_to_vec(slice);
        replay_header = match parse_replay_xml(slice) {
            Ok(h) => Some(h),
            Err(_) => None,
        };
        challenge_header = match parse_challenge_header_xml(slice) {
            Ok(h) => Some(h),
            Err(_) => None,
        };
    }
    assert(header_xml_bytes@ =~= header_bytes(buffer@));
    let header_xml = match string_from_utf8(header_xml_bytes) {
        Some(s) => s,
        None => {
            return None;
        },
    };
    Some(
        Ok(
            GBX::from_parts(
                GBXOrigin::Buffer,
                len,
                hs,
                he.wrapping_sub(hs),
                bin_header,
                replay_header,
                challenge_header,
                header_xml,
            ),
        ),
    )
}

/// Parses the given bytes as a GBX file.
///
/// The XML header must be valid UTF-8, its first `</header>` must not end before its first
/// `<header ` starts, and a file that starts with `GBX` must hold the whole 13-byte binary
/// header: see [`parse_panics`] and [`try_parse_from_buffer`]. The XML header is read both
/// as a replay header and as a challenge header; the map data itself is not read.
pub fn parse_from_buffer(buffer: &[u8]) -> (r: Result<GBX, ParseError>)
    requires
        !parse_panics(buffer@),
    ensures
        result_view(r) == spec_parse_from_buffer(buffer@),
{
    match try_parse_from_buffer(buffer) {
        Some(r) => r,
        None => Err(ParseError::Unknown),
    }
}

/// What reading `bytes` gives when they are the contents of the file at `path`: the same as
/// [`spec_parse_from_buffer`], except that the origin is `File { path }`.
pub open spec fn spec_parse_file_bytes(path: Seq<char>, bytes: Seq<u8>) -> Result<GBXModel, ParseErrorView> {
    match spec_parse_from_buffer(bytes) {
        Ok(m) => Ok(GBXModel { origin: OriginModel::File { path }, ..m }),
        Err(e) => Err(e),
    }
}

/// The contents of a file read as a buffer: the same error, or the same value in every field
/// but the origin, which is the file's path.
pub proof fn lemma_file_bytes_read_as_buffer(path: Seq<char>, bytes: Seq<u8>)
    ensures
        spec_parse_file_bytes(path, bytes) is Ok <==> spec_parse_from_buffer(bytes) is Ok,
        spec_parse_from_buffer(bytes) matches Err(e) ==> spec_parse_file_bytes(path, bytes)
            == Err::<GBXModel, ParseErrorView>(e),
        spec_parse_file_bytes(path, bytes) matches Ok(m) ==> {
            &&& m.origin == OriginModel::File { path }
            &&& m.filesize == bytes.len()
            &&& m.header_start == header_begin(bytes)
            &&& m.header_length == header_length_of(bytes)
            &&& m.bin_header == (GBXBinaryHeader { version: le_u16(bytes, 3), class_id: le_u32(bytes, 9) })
            &&& m.replay_header == replay_header_of(bytes)
            &&& m.challenge_header == challenge_header_of(bytes)
            &&& m.header_xml == decode_utf8(header_bytes(bytes))
        },
        spec_parse_file_bytes(path, bytes) matches Ok(m) ==> spec_parse_from_buffer(bytes) matches Ok(
            mb,
        ) && {
            &&& m.filesize == mb.filesize
            &&& m.header_start == mb.header_start
            &&& m.header_length == mb.header_length
            &&& m.bin_header == mb.bin_header
            &&& m.replay_header == mb.replay_header
            &&& m.challenge_header == mb.challenge_header
            &&& m.header_xml == mb.header_xml
        },
{
}

/// Parses `bytes`, the contents of the file at `path`, exactly as [`try_parse_from_buffer`]
/// does, and records the file as the origin of the result.
///
/// Returns `None` on the inputs where [`parse_from_buffer`] may not be called.
pub fn parse_file_bytes(path: &str, bytes: &[u8]) -> (r: Option<Result<GBX, ParseError>>)
    ensures
        r is None <==> parse_panics(bytes@),
        r matches Some(res) ==> result_view(res) == spec_parse_file_bytes(path@, bytes@),
{
    match try_parse_from_buffer(bytes) {
        None => None,
        Some(Err(e)) => Some(Err(e)),
        Some(Ok(g)) => {
            let mut g = g;
            g.origin = GBXOrigin::File { path: path.to_owned() };
            Some(Ok(g))
        },
    }
}

} // verus!

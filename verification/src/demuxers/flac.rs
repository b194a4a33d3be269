//! FLAC native container: the `fLaC` marker, metadata blocks (STREAMINFO
//! first), then frames that each start with a sync code.

use vstd::prelude::*;
use crate::probe::{
    FormatProbe, ProbeScore, SCORE_EXTENSION, SCORE_MAX, SCORE_MIME, has_tag, tag_at, str_views,
    name_ascii_ends_in, filename_ascii_ends_in, name_lower_ends_with, filename_lower_ends_with,
    ext_lower_in, filename_lower_ext_in, ext_matches_ci, filename_ext_is, tag_is,
};
use crate::format_id::FormatId;
use crate::error::{ErrorKind, TaoError, TaoResult, invalid_data};
use crate::endian::{be16, be24, be32, u16_from_be, u24_from_be, u32_from_be};
use crate::crc::{crc8, crc8_of};
use crate::media::{
    AudioStreamParams, ChannelLayout, CodecId, MediaType, Packet, Rational, SampleFormat,
    SeekFlags, Stream, StreamParams,
};
use crate::io::{IoContext, SeekFrom, bytes_at};
use crate::demuxer::{Demuxer, io_in_range};
use crate::text::{utf8_decode, utf8_strict, to_uppercase, unicode_uppercase};
use crate::endian::{le32, u32_from_le, copy_bytes};
use vstd::string::StrSliceExecFns;

verus! {

/// The `fLaC` stream marker.
pub open spec fn flac_marker() -> Seq<u8> {
    seq![0x66u8, 0x4C, 0x61, 0x43]
}

/// What the FLAC probe answers.
pub open spec fn flac_probe_score(d: Seq<u8>, filename: Option<&str>) -> Option<ProbeScore> {
    if tag_at(d, 0, flac_marker()) {
        Some(SCORE_MAX)
    } else if name_ascii_ends_in(filename, seq![".flac"@]) {
        Some(SCORE_EXTENSION)
    } else {
        None
    }
}

/// Recogniser of FLAC files.
pub struct FlacProbe;

impl FormatProbe for FlacProbe {
    fn probe(&self, data: &[u8], filename: Option<&str>) -> (r: Option<ProbeScore>)
        ensures
            r == flac_probe_score(data@, filename),
    {
        if has_tag(data, 0, &[0x66u8, 0x4C, 0x61, 0x43]) {
            return Some(SCORE_MAX);
        }
        let exts: [&str; 1] = [".flac"];
        assert(str_views(exts@) =~= seq![".flac"@]);
        if filename_ascii_ends_in(filename, exts.as_slice()) {
            return Some(SCORE_EXTENSION);
        }
        None
    }

    fn format_id(&self) -> (r: FormatId)
        ensures
            r == FormatId::FlacContainer,
    {
        FormatId::FlacContainer
    }
}

/// FLAC metadata block types.
#[derive(Debug, Clone, Copy, PartialEq, Eq, Structural)]
pub enum MetadataBlockType {
    /// STREAMINFO (type 0).
    StreamInfo,
    /// PADDING (type 1).
    Padding,
    /// APPLICATION (type 2).
    Application,
    /// SEEKTABLE (type 3).
    SeekTable,
    /// VORBIS_COMMENT (type 4).
    VorbisComment,
    /// CUESHEET (type 5).
    CueSheet,
    /// PICTURE (type 6).
    Picture,
}

/// The metadata block type of a type code.
pub open spec fn block_type_of(v: u8) -> Option<MetadataBlockType> {
    if v == 0 {
        Some(MetadataBlockType::StreamInfo)
    } else if v == 1 {
        Some(MetadataBlockType::Padding)
    } else if v == 2 {
        Some(MetadataBlockType::Application)
    } else if v == 3 {
        Some(MetadataBlockType::SeekTable)
    } else if v == 4 {
        Some(MetadataBlockType::VorbisComment)
    } else if v == 5 {
        Some(MetadataBlockType::CueSheet)
    } else if v == 6 {
        Some(MetadataBlockType::Picture)
    } else {
        None
    }
}

impl MetadataBlockType {
    /// The block type of a type code; `None` for unknown codes.
    pub fn from_u8(v: u8) -> (r: Option<Self>)
        ensures
            r == block_type_of(v),
    {
        match v {
            0 => Some(MetadataBlockType::StreamInfo),
            1 => Some(MetadataBlockType::Padding),
            2 => Some(MetadataBlockType::Application),
            3 => Some(MetadataBlockType::SeekTable),
            4 => Some(MetadataBlockType::VorbisComment),
            5 => Some(MetadataBlockType::CueSheet),
            6 => Some(MetadataBlockType::Picture),
            _ => None,
        }
    }
}

/// The fields of a STREAMINFO block.
#[derive(Debug, Clone, Copy)]
pub struct StreamInfo {
    /// Smallest block size, in samples.
    pub min_block_size: u16,
    /// Largest block size, in samples.
    pub max_block_size: u16,
    /// Smallest frame size in bytes (0: unknown).
    pub min_frame_size: u32,
    /// Largest frame size in bytes (0: unknown).
    pub max_frame_size: u32,
    /// Sample rate (20 bits).
    pub sample_rate: u32,
    /// Channel count (1 to 8).
    pub channels: u32,
    /// Bits per sample (1 to 32).
    pub bits_per_sample: u32,
    /// Total samples per channel (36 bits; 0: unknown).
    pub total_samples: u64,
    /// MD5 of the decoded audio.
    pub md5: [u8; 16],
}

/// Whether `i` holds the STREAMINFO fields coded in the 34 bytes of `d`.
pub open spec fn stream_info_is(i: StreamInfo, d: Seq<u8>) -> bool {
    &&& i.min_block_size == be16(d[0], d[1])
    &&& i.max_block_size == be16(d[2], d[3])
    &&& i.min_frame_size == be24(d[4], d[5], d[6])
    &&& i.max_frame_size == be24(d[7], d[8], d[9])
    &&& i.sample_rate == d[10] * 4096 + d[11] * 16 + d[12] / 16
    &&& i.channels == (d[12] / 2) % 8 + 1
    &&& i.bits_per_sample == (d[12] % 2) * 16 + d[13] / 16 + 1
    &&& i.total_samples == (d[13] % 16) * 0x1_0000_0000 + be32(d[14], d[15], d[16], d[17])
    &&& i.md5@ == d.subrange(18, 34)
}

impl FlacDemuxer {
    /// Parses a STREAMINFO block; `InvalidData` when it is shorter than 34
    /// bytes.
    pub fn parse_stream_info(data: &[u8]) -> (r: TaoResult<StreamInfo>)
        ensures
            data@.len() < 34 ==> (r matches Err(e) && e.kind() == ErrorKind::InvalidData),
            data@.len() >= 34 ==> (r matches Ok(i) && stream_info_is(i, data@)),
    {
        if data.len() < 34 {
            return Err(invalid_data("STREAMINFO block shorter than 34 bytes"));
        }
        let min_block_size = u16_from_be(data[0], data[1]);
        let max_block_size = u16_from_be(data[2], data[3]);
        let min_frame_size = u24_from_be(data[4], data[5], data[6]);
        let max_frame_size = u24_from_be(data[7], data[8], data[9]);
        let sample_rate = (data[10] as u32) * 4096 + (data[11] as u32) * 16 + (data[12] as u32) / 16;
        let channels = ((data[12] as u32) / 2) % 8 + 1;
        let bits_per_sample = ((data[12] as u32) % 2) * 16 + (data[13] as u32) / 16 + 1;
        let total_hi = ((data[13] % 16) as u64) * 0x1_0000_0000;
        let total_lo = u32_from_be(data[14], data[15], data[16], data[17]) as u64;
        let total_samples = total_hi + total_lo;
        let mut md5 = [0u8; 16];
        let mut k: usize = 0;
        while k < 16
            invariant
                k <= 16,
                data@.len() >= 34,
                forall|j: int| 0 <= j < k ==> md5@[j] == data@[18 + j],
            decreases 16 - k,
        {
            md5[k] = data[18 + k];
            k = k + 1;
        }
        assert(md5@ =~= data@.subrange(18, 34));
        Ok(StreamInfo {
            min_block_size,
            max_block_size,
            min_frame_size,
            max_frame_size,
            sample_rate,
            channels,
            bits_per_sample,
            total_samples,
            md5,
        })
    }
}

/// Sample format for a bit depth.
pub open spec fn flac_sample_format(bits: u32) -> SampleFormat {
    if bits == 8 {
        SampleFormat::U8
    } else if bits == 16 {
        SampleFormat::S16
    } else {
        SampleFormat::S32
    }
}

/// Sample format for a bit depth: 8 bits unsigned, 16 bits, else 32 bits.
pub fn resolve_sample_format(bits_per_sample: u32) -> (r: SampleFormat)
    ensures
        r == flac_sample_format(bits_per_sample),
{
    match bits_per_sample {
        8 => SampleFormat::U8,
        16 => SampleFormat::S16,
        _ => SampleFormat::S32,
    }
}

/// Length of the UTF-8 style coded frame number whose first byte is `b`;
/// 0 when `b` cannot start one.
pub open spec fn coded_number_len(b: u8) -> int {
    if b < 0x80 {
        1
    } else if b / 32 == 6 {
        2
    } else if b / 16 == 14 {
        3
    } else if b / 8 == 30 {
        4
    } else if b / 4 == 62 {
        5
    } else if b / 2 == 126 {
        6
    } else if b == 0xFE {
        7
    } else {
        0
    }
}

/// Where the CRC-8 byte of a frame header stands, given its block size and
/// sample rate codes and the length of its coded number.
pub open spec fn header_crc_pos(n: int, bs_code: u8, sr_code: u8) -> int {
    4 + n + (if bs_code == 6 { 1int } else if bs_code == 7 { 2 } else { 0 }) + (if sr_code == 12 {
        1int
    } else if sr_code == 13 || sr_code == 14 {
        2
    } else {
        0
    })
}

/// Whether the frame header at the start of `d` has a well-formed coded
/// number and, when its CRC-8 byte is in `d`, a matching CRC-8.
pub open spec fn header_crc_ok(d: Seq<u8>, bs_code: u8, sr_code: u8) -> bool {
    let n = coded_number_len(d[4]);
    &&& d.len() >= 5
    &&& n > 0
    &&& 4 + n <= d.len()
    &&& forall|k: int| 5 <= k < 4 + n ==> #[trigger] d[k] / 64 == 2
    &&& ({
        let pos = header_crc_pos(n, bs_code, sr_code);
        pos >= d.len() || d[pos] == crc8_of(d.subrange(0, pos))
    })
}

/// Whether `d` starts with a plausible FLAC frame header: reserved bit
/// clear, block size code not 0, sample rate code not 15, channel
/// assignment at most 10, sample size code not 3, and the CRC-8 check.
pub open spec fn frame_header_ok(d: Seq<u8>) -> bool {
    &&& d.len() >= 5
    &&& d[3] % 2 == 0
    &&& d[2] / 16 != 0
    &&& d[2] % 16 != 15
    &&& d[3] / 16 <= 10
    &&& (d[3] / 2) % 8 != 3
    &&& header_crc_ok(d, d[2] / 16, d[2] % 16)
}

/// Whether a frame sync code (0xFFF8 or 0xFFF9) starts at `i`.
pub open spec fn sync_at(d: Seq<u8>, i: int) -> bool {
    0 <= i && i + 2 <= d.len() && d[i] == 0xFF && d[i + 1] / 2 == 0x7C
}

/// Whether a valid frame starts at `i`.
pub open spec fn frame_start_at(d: Seq<u8>, i: int) -> bool {
    sync_at(d, i) && frame_header_ok(d.subrange(i, d.len() as int))
}

/// Checks the CRC-8 of a frame header.
fn verify_header_crc8(data: &[u8], bs_code: u8, sr_code: u8) -> (r: bool)
    ensures
        r == header_crc_ok(data@, bs_code, sr_code),
{
    if data.len() < 5 {
        return false;
    }
    let first = data[4];
    let n: usize = if first < 0x80 {
        1
    } else if first / 32 == 6 {
        2
    } else if first / 16 == 14 {
        3
    } else if first / 8 == 30 {
        4
    } else if first / 4 == 62 {
        5
    } else if first / 2 == 126 {
        6
    } else if first == 0xFE {
        7
    } else {
        return false;
    };
    assert(n == coded_number_len(data@[4]));
    let utf8_end = 4 + n;
    if utf8_end > data.len() {
        return false;
    }
    let mut k: usize = 5;
    while k < utf8_end
        invariant
            5 <= k <= utf8_end,
            utf8_end == 4 + n,
            n as int == coded_number_len(data@[4]),
            data@.len() >= 5,
            utf8_end <= data@.len(),
            forall|j: int| 5 <= j < k ==> #[trigger] data@[j] / 64 == 2,
        decreases utf8_end - k,
    {
        if data[k] / 64 != 2 {
            assert(data@[k as int] / 64 != 2);
            assert(!(forall|j: int| 5 <= j < 4 + n ==> #[trigger] data@[j] / 64 == 2));
            return false;
        }
        k = k + 1;
    }
    let mut pos = utf8_end;
    if bs_code == 6 {
        pos = pos + 1;
    } else if bs_code == 7 {
        pos = pos + 2;
    }
    if sr_code == 12 {
        pos = pos + 1;
    } else if sr_code == 13 || sr_code == 14 {
        pos = pos + 2;
    }
    if pos >= data.len() {
        return true;
    }
    let crc_read = data[pos];
    let crc_calc = crc8(&data[0..pos]);
    crc_read == crc_calc
}

/// Whether `data` starts with a plausible FLAC frame header.
pub fn validate_frame_header(data: &[u8]) -> (r: bool)
    ensures
        r == frame_header_ok(data@),
{
    if data.len() < 5 {
        return false;
    }
    let byte2 = data[2];
    let byte3 = data[3];
    let bs_code = byte2 / 16;
    let sr_code = byte2 % 16;
    let ch_code = byte3 / 16;
    let ss_code = (byte3 / 2) % 8;
    if byte3 % 2 != 0 {
        return false;
    }
    if bs_code == 0 {
        return false;
    }
    if sr_code == 15 {
        return false;
    }
    if ch_code > 10 {
        return false;
    }
    if ss_code == 3 {
        return false;
    }
    verify_header_crc8(data, bs_code, sr_code)
}

/// The first index from `start` where a valid frame starts.
pub open spec fn first_frame_from(d: Seq<u8>, start: int) -> Option<int>
    decreases d.len() - start,
{
    if start < 0 || start + 2 > d.len() {
        None
    } else if frame_start_at(d, start) {
        Some(start)
    } else {
        first_frame_from(d, start + 1)
    }
}

proof fn lemma_first_frame_bounds(d: Seq<u8>, start: int)
    ensures
        first_frame_from(d, start) matches Some(i) ==> start <= i && i + 2 <= d.len() && frame_start_at(d, i),
    decreases d.len() - start,
{
    if !(start < 0 || start + 2 > d.len()) && !frame_start_at(d, start) {
        lemma_first_frame_bounds(d, start + 1);
    }
}

/// Offset of the first valid frame header at or after `start`.
pub fn find_sync_code_from(buf: &[u8], start: usize) -> (r: Option<usize>)
    ensures
        r == (match first_frame_from(buf@, start as int) {
            Some(i) => Some(i as usize),
            None => None::<usize>,
        }),
        r matches Some(i) ==> start <= i && i + 2 <= buf@.len(),
{
    if buf.len() < 2 || start > buf.len() - 2 {
        return None;
    }
    let mut i = start;
    while i < buf.len() - 1
        invariant
            start <= i <= buf@.len() - 1,
            buf@.len() >= 2,
            first_frame_from(buf@, start as int) == first_frame_from(buf@, i as int),
        decreases buf.len() - i,
    {
        if buf[i] == 0xFF && buf[i + 1] / 2 == 0x7C && validate_frame_header(&buf[i..buf.len()]) {
            return Some(i);
        }
        i = i + 1;
    }
    None
}

/// Offset of the first valid frame header in `buf`.
pub fn find_sync_code(buf: &[u8]) -> (r: Option<usize>)
    ensures
        r == (match first_frame_from(buf@, 0) {
            Some(i) => Some(i as usize),
            None => None::<usize>,
        }),
        r matches Some(i) ==> i + 2 <= buf@.len(),
{
    find_sync_code_from(buf, 0)
}

/// Block size coded by a frame header's block size code `c`: 192, 576
/// times a power of two (codes 2 to 5), 256 times a power of two (codes 8
/// to 15); `fallback` for the codes that store it later in the header.
pub open spec fn block_size_of_code(c: u8, fallback: u64) -> u64 {
    if c == 1 {
        192
    } else if c == 2 {
        576
    } else if c == 3 {
        1152
    } else if c == 4 {
        2304
    } else if c == 5 {
        4608
    } else if c == 8 {
        256
    } else if c == 9 {
        512
    } else if c == 10 {
        1024
    } else if c == 11 {
        2048
    } else if c == 12 {
        4096
    } else if c == 13 {
        8192
    } else if c == 14 {
        16384
    } else if c == 15 {
        32768
    } else {
        fallback
    }
}

/// Block size of the frame whose header starts `d`; the STREAMINFO maximum
/// (4096 without one) when the header does not give it directly or is
/// shorter than 5 bytes.
pub open spec fn frame_block_size(d: Seq<u8>, info: Option<StreamInfo>) -> u64 {
    let fallback: u64 = match info {
        Some(i) => i.max_block_size as u64,
        None => 4096,
    };
    if d.len() < 5 {
        fallback
    } else {
        block_size_of_code(d[2] / 16, fallback)
    }
}

/// Index of the first `=` in `c` at or after `i`, or `c.len()`.
pub open spec fn first_eq_sign(c: Seq<char>, i: int) -> int
    decreases c.len() - i,
{
    if i < 0 || i >= c.len() {
        c.len() as int
    } else if c[i] == '=' {
        i
    } else {
        first_eq_sign(c, i + 1)
    }
}

/// The metadata entry of a `KEY=VALUE` comment: the key uppercased and the
/// value; `None` when the text has no `=`.
pub open spec fn comment_entry(c: Seq<char>) -> Option<(Seq<char>, Seq<char>)> {
    let k = first_eq_sign(c, 0);
    if k >= c.len() {
        None
    } else {
        Some((unicode_uppercase(c.subrange(0, k)), c.subrange(k + 1, c.len() as int)))
    }
}

/// The entries of the comments from `pos` on, at most `count` of them,
/// each a little-endian length and that many bytes of UTF-8; the walk
/// stops at the first comment that does not fit, and comments that are not
/// UTF-8 or have no `=` are passed over.
pub open spec fn comments_from(d: Seq<u8>, pos: int, count: nat) -> Seq<(Seq<char>, Seq<char>)>
    decreases count,
{
    if count == 0 || pos < 0 || pos + 4 > d.len() {
        seq![]
    } else {
        let len = le32(d[pos], d[pos + 1], d[pos + 2], d[pos + 3]);
        let start = pos + 4;
        if start + len > d.len() {
            seq![]
        } else {
            let rest = comments_from(d, start + len, (count - 1) as nat);
            match utf8_strict(d.subrange(start, start + len)) {
                Some(c) => match comment_entry(c) {
                    Some(e) => seq![e] + rest,
                    None => rest,
                },
                None => rest,
            }
        }
    }
}

/// The metadata entries of a VORBIS_COMMENT block: vendor string, count,
/// then the comments.
pub open spec fn vorbis_comments(d: Seq<u8>) -> Seq<(Seq<char>, Seq<char>)> {
    if d.len() < 8 {
        seq![]
    } else {
        let pos = 4 + le32(d[0], d[1], d[2], d[3]);
        if pos + 4 > d.len() {
            seq![]
        } else {
            comments_from(d, pos + 4, le32(d[pos], d[pos + 1], d[pos + 2], d[pos + 3]) as nat)
        }
    }
}

/// The string views of a list of metadata pairs.
pub open spec fn pair_views(m: Seq<(String, String)>) -> Seq<(Seq<char>, Seq<char>)> {
    Seq::new(m.len(), |i: int| (m[i].0@, m[i].1@))
}

/// Splits a comment at its first `=`, uppercasing the key.
fn split_comment(c: &str) -> (r: Option<(String, String)>)
    ensures
        match comment_entry(c@) {
            Some(e) => r matches Some(p) && p.0@ == e.0 && p.1@ == e.1,
            None => r is None,
        },
{
    let n = c.unicode_len();
    let mut k: usize = 0;
    while k < n && c.get_char(k) != '='
        invariant
            n == c@.len(),
            k <= n,
            first_eq_sign(c@, 0) == first_eq_sign(c@, k as int),
        decreases n - k,
    {
        k = k + 1;
    }
    if k >= n {
        return None;
    }
    let key = to_uppercase(c.substring_char(0, k));
    let value = c.substring_char(k + 1, n).to_owned();
    Some((key, value))
}

/// Appends to `metadata` the entries of a VORBIS_COMMENT block.
fn parse_vorbis_comment(metadata: &mut Vec<(String, String)>, data: &[u8])
    requires
        data@.len() <= 0x1_0000_0000_0000,
        0x40_0000_0000_0000 <= usize::MAX,
    ensures
        pair_views(final(metadata)@) == pair_views(old(metadata)@) + vorbis_comments(data@),
{
    let ghost start_views = pair_views(metadata@);
    if data.len() < 8 {
        assert(pair_views(metadata@) =~= start_views + vorbis_comments(data@));
        return;
    }
    let vendor_len = u32_from_le(data[0], data[1], data[2], data[3]) as usize;
    let mut pos = 4 + vendor_len;
    if pos + 4 > data.len() {
        assert(pair_views(metadata@) =~= start_views + vorbis_comments(data@));
        return;
    }
    let count = u32_from_le(data[pos], data[pos + 1], data[pos + 2], data[pos + 3]) as usize;
    pos = pos + 4;
    let mut i: usize = 0;
    while i < count
        invariant
            i <= count,
            data@.len() <= 0x1_0000_0000_0000,
            pos <= data@.len() + 0x1_0000_0008,
            0x40_0000_0000_0000 <= usize::MAX,
            pair_views(metadata@) + comments_from(data@, pos as int, (count - i) as nat)
                == start_views + vorbis_comments(data@),
        ensures
            pair_views(metadata@) == start_views + vorbis_comments(data@),
        decreases count - i,
    {
        if pos + 4 > data.len() {
            assert(comments_from(data@, pos as int, (count - i) as nat) =~= seq![]);
            assert(pair_views(metadata@) =~= pair_views(metadata@) + comments_from(data@, pos as int, (count - i) as nat));
            break;
        }
        let len = u32_from_le(data[pos], data[pos + 1], data[pos + 2], data[pos + 3]) as usize;
        let start = pos + 4;
        if start + len > data.len() {
            assert(comments_from(data@, pos as int, (count - i) as nat) =~= seq![]);
            assert(pair_views(metadata@) =~= pair_views(metadata@) + comments_from(data@, pos as int, (count - i) as nat));
            break;
        }
        let ghost before = pair_views(metadata@);
        match utf8_decode(&data[start..start + len]) {
            Some(comment) => {
                match split_comment(comment.as_str()) {
                    Some(entry) => {
                        metadata.push(entry);
                        assert(pair_views(metadata@) =~= before + seq![(entry.0@, entry.1@)]);
                    },
                    None => {},
                }
            },
            None => {},
        }
        pos = start + len;
        i = i + 1;
    }
    if i >= count {
        assert(comments_from(data@, pos as int, 0) =~= seq![]);
    }
}

/// Where the metadata block walk ends: the STREAMINFO block bytes (the
/// last one seen), the comment entries gathered, and the offset after the
/// last block; or the kind of error.
pub open spec fn flac_blocks(
    d: Seq<u8>,
    p: int,
    si: Option<Seq<u8>>,
    meta: Seq<(Seq<char>, Seq<char>)>,
) -> Result<(Option<Seq<u8>>, Seq<(Seq<char>, Seq<char>)>, int), ErrorKind>
    decreases d.len() - p,
{
    if p < 0 || p + 4 > d.len() {
        Err(ErrorKind::Eof)
    } else {
        let h = d[p];
        let size = be24(d[p + 1], d[p + 2], d[p + 3]);
        let body = p + 4;
        let next = body + size;
        let step: Result<(Option<Seq<u8>>, Seq<(Seq<char>, Seq<char>)>), ErrorKind> = match block_type_of(h % 128) {
            Some(MetadataBlockType::StreamInfo) => if next > d.len() {
                Err(ErrorKind::Eof)
            } else if size < 34 {
                Err(ErrorKind::InvalidData)
            } else {
                Ok((Some(d.subrange(body, next)), meta))
            },
            Some(MetadataBlockType::VorbisComment) => if next > d.len() {
                Err(ErrorKind::Eof)
            } else {
                Ok((si, meta + vorbis_comments(d.subrange(body, next))))
            },
            _ => Ok((si, meta)),
        };
        match step {
            Err(k) => Err(k),
            Ok((si2, meta2)) => if h >= 128 {
                Ok((si2, meta2, next))
            } else if next >= d.len() {
                Err(ErrorKind::Eof)
            } else {
                flac_blocks(d, next, si2, meta2)
            },
        }
    }
}

/// What opening a FLAC file at `p` gives: the STREAMINFO bytes, the comment
/// entries and the offset of the first frame, or the kind of error. `si0`
/// is the STREAMINFO already held from an earlier `open`, which stands when
/// the file has none.
pub open spec fn flac_open_outcome(d: Seq<u8>, p: int, si0: Option<Seq<u8>>) -> Result<(Seq<u8>, Seq<(Seq<char>, Seq<char>)>, int), ErrorKind> {
    if p + 4 > d.len() {
        Err(ErrorKind::Eof)
    } else if d.subrange(p, p + 4) != flac_marker() {
        Err(ErrorKind::InvalidData)
    } else {
        match flac_blocks(d, p + 4, si0, seq![]) {
            Err(k) => Err(k),
            Ok((None, _, _)) => Err(ErrorKind::InvalidData),
            Ok((Some(b), m, end)) => Ok((b, m, end)),
        }
    }
}

/// Largest frame size to plan for: STREAMINFO's, or an estimate from the
/// block size when it is 0.
pub open spec fn planned_frame_size(i: StreamInfo) -> u32 {
    if i.max_frame_size > 0 {
        i.max_frame_size
    } else {
        (i.max_block_size * i.channels * ((i.bits_per_sample + 7) / 8) + 256) as u32
    }
}

/// Whether `s` is the audio stream of a FLAC file with STREAMINFO `i`
/// coded in the bytes `b`.
pub open spec fn flac_stream_is(s: Stream, i: StreamInfo, b: Seq<u8>) -> bool {
    &&& s.index == 0
    &&& s.media_type == MediaType::Audio
    &&& s.codec_id == CodecId::Flac
    &&& s.time_base == Rational::new_spec(1, i.sample_rate as i32)
    &&& s.duration == i.total_samples as i64
    &&& s.start_time == 0
    &&& s.nb_frames == 0
    &&& s.extra_data@ == b
    &&& s.metadata@.len() == 0
    &&& s.params matches StreamParams::Audio(a) && {
        &&& a.sample_rate == i.sample_rate
        &&& a.channel_layout.channels == i.channels
        &&& a.sample_format == flac_sample_format(i.bits_per_sample)
        &&& a.bit_rate == i.sample_rate as int * i.channels as int * i.bits_per_sample as int
        &&& a.frame_size == i.max_block_size as u32
    }
}

/// Where the next frame starts when reading from `pos` with windows of
/// `buf_size` bytes in a file of `file_size` bytes: at `pos` when a valid
/// header is there, else at the first valid header in the window, searched
/// again from there; `None` at the end or when the window has none.
pub open spec fn flac_locate(d: Seq<u8>, pos: int, file_size: int, buf_size: int) -> Option<int>
    decreases d.len() - pos,
{
    let remaining = if file_size > pos { file_size - pos } else { buf_size };
    let n = if buf_size < remaining { buf_size } else { remaining };
    if pos < 0 || remaining < 2 || pos + n > d.len() {
        None
    } else if frame_start_at(d.subrange(pos, pos + n), 0) {
        Some(pos)
    } else {
        match first_frame_from(d.subrange(pos, pos + n), 0) {
            Some(o) => if 0 < o < n {
                flac_locate(d, pos + o, file_size, buf_size)
            } else {
                None
            },
            None => None,
        }
    }
}

/// The window read at `pos`.
pub open spec fn flac_window(pos: int, file_size: int, buf_size: int) -> int {
    let remaining = if file_size > pos { file_size - pos } else { buf_size };
    if buf_size < remaining { buf_size } else { remaining }
}

/// Reader of native FLAC files.
pub struct FlacDemuxer {
    streams: Vec<Stream>,
    stream_info: Option<StreamInfo>,
    frames_offset: u64,
    current_pos: u64,
    file_size: u64,
    sample_rate: u32,
    channels: u32,
    bits_per_sample: u32,
    frame_number: u64,
    extra_data: Vec<u8>,
    metadata: Vec<(String, String)>,
    max_frame_size: u32,
    last_block_size: u64,
}

impl FlacDemuxer {
    /// Bounds that every state keeps.
    #[verifier::type_invariant]
    closed spec fn wf(&self) -> bool {
        &&& self.current_pos <= 0x4_0000_0000_0000
        &&& self.frames_offset <= 0x4_0000_0000_0000
        &&& self.stream_info matches Some(i) ==> stream_info_is(i, self.extra_data@) && self.extra_data@.len() >= 34
    }

    /// The STREAMINFO bytes held, as `open` starts from them.
    pub closed spec fn held_info_bytes(&self) -> Option<Seq<u8>> {
        if self.stream_info is Some { Some(self.extra_data@) } else { None }
    }

    /// The streams.
    pub closed spec fn stream_list(&self) -> Seq<Stream> {
        self.streams@
    }

    /// STREAMINFO, once opened.
    pub closed spec fn info(&self) -> Option<StreamInfo> {
        self.stream_info
    }

    /// Offset of the first frame.
    pub closed spec fn frames_start(&self) -> u64 {
        self.frames_offset
    }

    /// Offset of the next frame to read.
    pub closed spec fn read_pos(&self) -> u64 {
        self.current_pos
    }

    /// Size of the input seen by `open`.
    pub closed spec fn input_size(&self) -> u64 {
        self.file_size
    }

    /// Samples before the next frame.
    pub closed spec fn samples_read(&self) -> u64 {
        self.frame_number
    }

    /// Sample rate.
    pub closed spec fn rate(&self) -> u32 {
        self.sample_rate
    }

    /// Largest frame to plan for.
    pub closed spec fn frame_limit(&self) -> u32 {
        self.max_frame_size
    }

    /// The STREAMINFO bytes.
    pub closed spec fn codec_private(&self) -> Seq<u8> {
        self.extra_data@
    }

    /// Metadata entries, as strings.
    pub closed spec fn meta_views(&self) -> Seq<(Seq<char>, Seq<char>)> {
        pair_views(self.metadata@)
    }

    /// A demuxer before `open`.
    pub fn new() -> (r: Self)
        ensures
            r.stream_list().len() == 0,
            r.info() is None,
            r.meta_views().len() == 0,
            r.read_pos() == 0,
            r.samples_read() == 0,
    {
        let r = FlacDemuxer {
            streams: Vec::new(),
            stream_info: None,
            frames_offset: 0,
            current_pos: 0,
            file_size: 0,
            sample_rate: 0,
            channels: 0,
            bits_per_sample: 0,
            frame_number: 0,
            extra_data: Vec::new(),
            metadata: Vec::new(),
            max_frame_size: 0,
            last_block_size: 0,
        };
        assert(r.meta_views() =~= seq![]);
        r
    }

}

impl FlacDemuxer {
    /// What `open` does: on a well-formed file, sets up the audio stream
    /// from STREAMINFO, appends the comments to the metadata and places the
    /// reader at the first frame; otherwise fails with the error kind of
    /// `flac_open_outcome`, the streams unchanged.
    pub open spec fn open_post(old_self: Self, new_self: Self, old_io: IoContext, new_io: IoContext, r: TaoResult<()>) -> bool {
        &&& new_io.contents() == old_io.contents()
        &&& match flac_open_outcome(old_io.contents(), old_io.cursor() as int, old_self.held_info_bytes()) {
            Ok((b, m, end)) => {
                &&& r is Ok
                &&& new_self.info() matches Some(i) && stream_info_is(i, b) && ({
                    &&& new_self.stream_list().len() == 1
                    &&& flac_stream_is(new_self.stream_list()[0], i, b)
                    &&& new_self.rate() == i.sample_rate
                    &&& new_self.frame_limit() == planned_frame_size(i)
                })
                &&& new_self.codec_private() == b
                &&& new_self.meta_views() == old_self.meta_views() + m
                &&& new_io.cursor() == end
                &&& new_self.frames_start() == end
                &&& new_self.read_pos() == end
                &&& new_self.input_size() == old_io.contents().len()
                &&& new_self.samples_read() == 0
            },
            Err(k) => {
                &&& r matches Err(e) && e.kind() == k
                &&& new_self.stream_list() == old_self.stream_list()
            },
        }
    }

    /// Walks the metadata blocks from the cursor.
    fn read_metadata_blocks(&mut self, io: &mut IoContext) -> (r: TaoResult<()>)
        requires
            io_in_range(*old(io)),
            old(io).cursor() <= old(io).contents().len(),
        ensures
            final(io).contents() == old(io).contents(),
            final(self).stream_list() == old(self).stream_list(),
            final(self).frames_start() == old(self).frames_start(),
            final(self).read_pos() == old(self).read_pos(),
            final(self).input_size() == old(self).input_size(),
            match flac_blocks(old(io).contents(), old(io).cursor() as int, old(self).held_info_bytes(), seq![]) {
                Ok((si, m, end)) => {
                    &&& r is Ok
                    &&& final(self).held_info_bytes() == si
                    &&& final(self).meta_views() == old(self).meta_views() + m
                    &&& final(io).cursor() == end
                    &&& end <= old(io).contents().len() + 0x100_0004
                },
                Err(k) => r matches Err(e) && e.kind() == k,
            },
    {
        proof {
            use_type_invariant(&*self);
        }
        let ghost d = io.contents();
        let ghost target = flac_blocks(d, io.cursor() as int, self.held_info_bytes(), seq![]);
        let ghost start_views = self.meta_views();
        let ghost mut acc: Seq<(Seq<char>, Seq<char>)> = seq![];
        loop
            invariant_except_break
                flac_blocks(d, io.cursor() as int, self.held_info_bytes(), acc) == target,
            invariant
                io.contents() == d,
                d == old(io).contents(),
                io_in_range(*old(io)),
                old(io).cursor() <= old(io).contents().len(),
                io.cursor() <= d.len() + 0x100_0004,
                self.stream_list() == old(self).stream_list(),
                self.frames_start() == old(self).frames_start(),
                self.read_pos() == old(self).read_pos(),
                self.input_size() == old(self).input_size(),
                self.meta_views() == start_views + acc,
                start_views == old(self).meta_views(),
                target == flac_blocks(d, old(io).cursor() as int, old(self).held_info_bytes(), seq![]),
            ensures
                target == Ok::<(Option<Seq<u8>>, Seq<(Seq<char>, Seq<char>)>, int), ErrorKind>(
                    (self.held_info_bytes(), acc, io.cursor() as int),
                ),
                io.contents() == d,
                self.stream_list() == old(self).stream_list(),
                self.frames_start() == old(self).frames_start(),
                self.read_pos() == old(self).read_pos(),
                self.input_size() == old(self).input_size(),
                self.meta_views() == start_views + acc,
                io.cursor() <= d.len() + 0x100_0004,
            decreases (if io.cursor() <= d.len() { d.len() - io.cursor() + 1 } else { 0 }),
        {
            proof {
                use_type_invariant(&*self);
            }
            let ghost c = io.cursor() as int;
            let header_byte = io.read_u8()?;
            let last = header_byte >= 0x80;
            let block_type_raw = header_byte % 0x80;
            let size_bytes = io.read_bytes(3)?;
            let block_size = u24_from_be(size_bytes[0], size_bytes[1], size_bytes[2]);
            let block_type = MetadataBlockType::from_u8(block_type_raw);
            let ghost next = c + 4 + block_size;
            match block_type {
                Some(MetadataBlockType::StreamInfo) => {
                    let data = io.read_bytes(block_size as usize)?;
                    let info = FlacDemuxer::parse_stream_info(data.as_slice())?;
                    self.stream_info = None;
                    self.extra_data = data;
                    self.stream_info = Some(info);
                    assert(self.extra_data@ =~= d.subrange(c + 4, next));
                },
                Some(MetadataBlockType::VorbisComment) => {
                    let data = io.read_bytes(block_size as usize)?;
                    let mut meta: Vec<(String, String)> = Vec::new();
                    std::mem::swap(&mut meta, &mut self.metadata);
                    parse_vorbis_comment(&mut meta, data.as_slice());
                    self.metadata = meta;
                    proof {
                        assert(data@ =~= d.subrange(c + 4, next));
                        acc = acc + vorbis_comments(data@);
                        assert(self.meta_views() =~= start_views + acc);
                    }
                },
                _ => {
                    io.skip(block_size as usize)?;
                },
            }
            if last {
                break;
            }
        }
        Ok(())
    }
}

impl FlacDemuxer {
    /// Window size that `read_packet` reads.
    pub open spec fn window_size(&self) -> int {
        (if self.frame_limit() > 16384 { self.frame_limit() as int } else { 16384 }) + 16
    }

    /// What `read_packet` does: finds the next valid frame header from the
    /// read position (skipping over bytes that do not start one) and
    /// returns the frame up to the next header in the window, timestamped
    /// with the samples read so far.
    pub open spec fn read_post(old_self: Self, new_self: Self, old_io: IoContext, new_io: IoContext, r: TaoResult<Packet>) -> bool {
        let d = old_io.contents();
        let w = old_self.window_size();
        &&& new_io.contents() == d
        &&& new_self.stream_list() == old_self.stream_list()
        &&& new_self.info() == old_self.info()
        &&& new_self.frames_start() == old_self.frames_start()
        &&& new_self.input_size() == old_self.input_size()
        &&& new_self.rate() == old_self.rate()
        &&& new_self.frame_limit() == old_self.frame_limit()
        &&& new_self.codec_private() == old_self.codec_private()
        &&& new_self.meta_views() == old_self.meta_views()
        &&& match flac_locate(d, old_self.read_pos() as int, old_self.input_size() as int, w) {
            Some(q) => {
                let n = flac_window(q, old_self.input_size() as int, w);
                let buf = d.subrange(q, q + n);
                let fs = match first_frame_from(buf, 2) {
                    Some(e) => e,
                    None => n,
                };
                let bs = frame_block_size(buf, old_self.info());
                &&& r matches Ok(p) && ({
                    &&& p.payload() == buf.subrange(0, fs)
                    &&& p.stream_index == 0
                    &&& p.pts == old_self.samples_read() as i64
                    &&& p.dts == p.pts
                    &&& p.duration == bs as i64
                    &&& p.time_base == Rational::new_spec(1, old_self.rate() as i32)
                    &&& p.is_keyframe
                    &&& p.pos == q
                })
                &&& new_self.read_pos() == q + fs
                &&& new_self.samples_read() == old_self.samples_read() + bs
                &&& new_io.cursor() == q + n
            },
            None => {
                &&& r matches Err(e) && e.kind() == ErrorKind::Eof
                &&& new_self.samples_read() == old_self.samples_read()
            },
        }
    }

    /// Block size of the frame whose header starts `frame_data`.
    fn peek_block_size(&self, frame_data: &[u8]) -> (r: u64)
        ensures
            r == frame_block_size(frame_data@, self.info()),
    {
        let fallback: u64 = match self.stream_info {
            Some(i) => i.max_block_size as u64,
            None => 4096,
        };
        if frame_data.len() < 5 {
            return fallback;
        }
        let bs_code = frame_data[2] / 16;
        match bs_code {
            1 => 192,
            2 => 576,
            3 => 1152,
            4 => 2304,
            5 => 4608,
            8 => 256,
            9 => 512,
            10 => 1024,
            11 => 2048,
            12 => 4096,
            13 => 8192,
            14 => 16384,
            15 => 32768,
            _ => fallback,
        }
    }

    /// Opens a FLAC file: the `fLaC` marker, the metadata blocks, then the
    /// stream set up from STREAMINFO.
    pub fn open_flac(&mut self, io: &mut IoContext) -> (r: TaoResult<()>)
        requires
            io_in_range(*old(io)),
        ensures
            Self::open_post(*old(self), *final(self), *old(io), *final(io), r),
    {
        proof {
            use_type_invariant(&*self);
        }
        let ghost d = io.contents();
        let ghost p = io.cursor() as int;
        let size = io.size();
        self.file_size = match size {
            Some(s) => s,
            None => 0,
        };
        let magic = io.read_tag()?;
        assert(magic@ =~= d.subrange(p, p + 4));
        assert(seq![0x66u8, 0x4C, 0x61, 0x43] =~= flac_marker());
        if !tag_is(&magic, &[0x66u8, 0x4C, 0x61, 0x43]) {
            return Err(invalid_data("not a FLAC file"));
        }
        self.read_metadata_blocks(io)?;
        proof {
            use_type_invariant(&*self);
        }
        let info = match self.stream_info {
            Some(i) => i,
            None => {
                return Err(invalid_data("FLAC file without STREAMINFO"));
            },
        };
        self.sample_rate = info.sample_rate;
        self.channels = info.channels;
        self.bits_per_sample = info.bits_per_sample;
        assert(info.channels <= 8 && info.bits_per_sample <= 32);
        assert((info.max_block_size as u32) * info.channels <= 65535 * 8) by (nonlinear_arith)
            requires
                info.max_block_size <= 65535,
                info.channels <= 8,
        ;
        assert((info.max_block_size as u32) * info.channels * ((info.bits_per_sample + 7) / 8) <= 65535 * 8 * 4) by (nonlinear_arith)
            requires
                (info.max_block_size as u32) * info.channels <= 65535 * 8,
                (info.bits_per_sample + 7) / 8 <= 4,
        ;
        self.max_frame_size = if info.max_frame_size > 0 {
            info.max_frame_size
        } else {
            (info.max_block_size as u32) * info.channels * ((info.bits_per_sample + 7) / 8) + 256
        };
        let frames_offset = io.position()?;
        self.frames_offset = frames_offset;
        self.current_pos = frames_offset;
        let sample_format = resolve_sample_format(info.bits_per_sample);
        let channel_layout = ChannelLayout::from_channels(info.channels);
        let time_base = Rational::new(1, info.sample_rate as i32);
        assert((info.sample_rate as u64) * (info.channels as u64) <= 0xFFFF_FFFF * 8) by (nonlinear_arith)
            requires
                info.sample_rate <= 0xFFFF_FFFF,
                info.channels <= 8,
        ;
        assert((info.sample_rate as u64) * (info.channels as u64) * (info.bits_per_sample as u64) <= 0xFFFF_FFFF * 8 * 32) by (nonlinear_arith)
            requires
                (info.sample_rate as u64) * (info.channels as u64) <= 0xFFFF_FFFF * 8,
                info.bits_per_sample <= 32,
        ;
        let bit_rate = (info.sample_rate as u64) * (info.channels as u64) * (info.bits_per_sample as u64);
        let stream = Stream {
            index: 0,
            media_type: MediaType::Audio,
            codec_id: CodecId::Flac,
            time_base,
            duration: info.total_samples as i64,
            start_time: 0,
            nb_frames: 0,
            extra_data: copy_bytes(self.extra_data.as_slice()),
            params: StreamParams::Audio(
                AudioStreamParams {
                    sample_rate: info.sample_rate,
                    channel_layout,
                    sample_format,
                    bit_rate,
                    frame_size: info.max_block_size as u32,
                },
            ),
            metadata: Vec::new(),
        };
        let mut streams: Vec<Stream> = Vec::new();
        streams.push(stream);
        self.streams = streams;
        self.frame_number = 0;
        self.last_block_size = 0;
        Ok(())
    }
}

impl FlacDemuxer {
    /// Reads the window at the read position.
    fn read_window(&mut self, io: &mut IoContext) -> (r: TaoResult<Vec<u8>>)
        requires
            io_in_range(*old(io)),
        ensures
            *final(self) == *old(self),
            final(io).contents() == old(io).contents(),
            ({
                let d = old(io).contents();
                let pos = old(self).read_pos() as int;
                let fsz = old(self).input_size() as int;
                let w = old(self).window_size();
                let remaining = if fsz > pos { fsz - pos } else { w };
                let n = flac_window(pos, fsz, w);
                if remaining < 2 || pos + n > d.len() {
                    r matches Err(e) && e.kind() == ErrorKind::Eof
                } else {
                    r matches Ok(buf) && buf@ == d.subrange(pos, pos + n) && final(io).cursor() == pos + n
                        && n >= 2
                }
            }),
    {
        proof {
            use_type_invariant(&*self);
        }
        let ghost d = io.contents();
        let ghost pos = self.current_pos as int;
        let max_read: usize = if self.max_frame_size > 16384 {
            self.max_frame_size as usize
        } else {
            16384
        };
        let buf_size = max_read + 16;
        io.seek(SeekFrom::Start(self.current_pos))?;
        let remaining = if self.file_size > self.current_pos {
            (self.file_size - self.current_pos) as usize
        } else {
            buf_size
        };
        if remaining < 2 {
            return Err(TaoError::Eof);
        }
        let actual_read = if buf_size < remaining {
            buf_size
        } else {
            remaining
        };
        let buf = io.read_bytes(actual_read)?;
        proof {
            crate::io::lemma_bytes_at_subrange(d, pos as nat, actual_read as nat);
        }
        Ok(buf)
    }

    /// Returns the frame that starts `buf` and moves past it.
    fn take_frame(&mut self, buf: &[u8]) -> (pkt: Packet)
        requires
            frame_start_at(buf@, 0),
            old(self).samples_read() + 65535 <= u64::MAX,
            old(self).read_pos() + buf@.len() <= 0x1_0000_0000_0000,
        ensures
            ({
                let fs = match first_frame_from(buf@, 2) {
                    Some(e) => e,
                    None => buf@.len() as int,
                };
                let bs = frame_block_size(buf@, old(self).info());
                &&& pkt.payload() == buf@.subrange(0, fs)
                &&& pkt.stream_index == 0
                &&& pkt.pts == old(self).samples_read() as i64
                &&& pkt.dts == pkt.pts
                &&& pkt.duration == bs as i64
                &&& pkt.time_base == Rational::new_spec(1, old(self).rate() as i32)
                &&& pkt.is_keyframe
                &&& pkt.pos == old(self).read_pos()
                &&& final(self).read_pos() == old(self).read_pos() + fs
                &&& final(self).samples_read() == old(self).samples_read() + bs
            }),
            final(self).stream_list() == old(self).stream_list(),
            final(self).info() == old(self).info(),
            final(self).frames_start() == old(self).frames_start(),
            final(self).input_size() == old(self).input_size(),
            final(self).rate() == old(self).rate(),
            final(self).frame_limit() == old(self).frame_limit(),
            final(self).codec_private() == old(self).codec_private(),
            final(self).meta_views() == old(self).meta_views(),
    {
        proof {
            use_type_invariant(&*self);
            lemma_first_frame_bounds(buf@, 2);
        }
        let frame_end = if buf.len() > 2 {
            find_sync_code_from(buf, 2)
        } else {
            None
        };
        let frame_size = match frame_end {
            Some(e) => e,
            None => buf.len(),
        };
        let pts = self.frame_number;
        let frame_data = copy_bytes(&buf[0..frame_size]);
        let mut pkt = Packet::from_vec(frame_data);
        pkt.stream_index = 0;
        pkt.pts = pts as i64;
        pkt.dts = pkt.pts;
        pkt.time_base = Rational::new(1, self.sample_rate as i32);
        pkt.is_keyframe = true;
        pkt.pos = self.current_pos as i64;
        self.current_pos = self.current_pos + frame_size as u64;
        let block_size = self.peek_block_size(buf);
        pkt.duration = block_size as i64;
        self.frame_number = self.frame_number + block_size;
        self.last_block_size = block_size;
        pkt
    }

    /// Reads the next frame: the window at the read position must start
    /// with a valid header, else the reader moves to the first valid header
    /// in it and tries again.
    pub fn read_flac_packet(&mut self, io: &mut IoContext) -> (r: TaoResult<Packet>)
        requires
            io_in_range(*old(io)),
            old(self).samples_read() + 65535 <= u64::MAX,
        ensures
            Self::read_post(*old(self), *final(self), *old(io), *final(io), r),
        decreases old(io).contents().len() - old(self).read_pos(),
    {
        proof {
            use_type_invariant(&*self);
        }
        let ghost d = io.contents();
        let ghost pos = self.current_pos as int;
        let ghost w = self.window_size();
        let buf = self.read_window(io)?;
        if buf.len() < 2 {
            return Err(TaoError::Eof);
        }
        proof {
            assert(buf@.subrange(0, buf@.len() as int) =~= buf@);
        }
        if !(buf[0] == 0xFF && buf[1] / 2 == 0x7C) || !validate_frame_header(buf.as_slice()) {
            match find_sync_code(buf.as_slice()) {
                Some(offset) => {
                    proof {
                        lemma_first_frame_bounds(buf@, 0);
                        lemma_first_frame_bounds(buf@, 1);
                        assert(flac_locate(d, pos, self.file_size as int, w) == flac_locate(
                            d,
                            pos + offset,
                            self.file_size as int,
                            w,
                        ));
                    }
                    self.current_pos = self.current_pos + offset as u64;
                    io.seek(SeekFrom::Start(self.current_pos))?;
                    return self.read_flac_packet(io);
                },
                None => {
                    return Err(TaoError::Eof);
                },
            }
        }
        proof {
            assert(flac_locate(d, pos, self.file_size as int, w) == Some(pos));
        }
        let pkt = self.take_frame(buf.as_slice());
        Ok(pkt)
    }

    /// Goes back to the first frame (the only seek this demuxer offers).
    pub fn seek_flac(&mut self, io: &mut IoContext) -> (r: TaoResult<()>)
        requires
            io_in_range(*old(io)),
        ensures
            r is Ok,
            final(io).contents() == old(io).contents(),
            final(io).cursor() == old(self).frames_start(),
            final(self).read_pos() == old(self).frames_start(),
            final(self).samples_read() == 0,
            final(self).frames_start() == old(self).frames_start(),
            final(self).stream_list() == old(self).stream_list(),
            final(self).info() == old(self).info(),
            final(self).input_size() == old(self).input_size(),
            final(self).rate() == old(self).rate(),
            final(self).frame_limit() == old(self).frame_limit(),
    {
        proof {
            use_type_invariant(&*self);
        }
        self.current_pos = self.frames_offset;
        self.frame_number = 0;
        io.seek(SeekFrom::Start(self.frames_offset))?;
        Ok(())
    }
    /// A boxed demuxer, for a registry.
    pub fn create() -> (r: TaoResult<Box<dyn Demuxer>>)
        ensures
            r matches Ok(d) && d.format_kind() == FormatId::FlacContainer && d.stream_seq().len() == 0,
    {
        Ok(Box::new(FlacDemuxer::new()))
    }
}

impl Demuxer for FlacDemuxer {
    open spec fn open_admits(&self, io: IoContext) -> bool {
        true
    }

    fn open_admitted(&self, io: &IoContext) -> (b: bool)
        ensures
            b == self.open_admits(*io),
    {
        true
    }

    open spec fn format_kind(&self) -> FormatId {
        FormatId::FlacContainer
    }

    open spec fn stream_seq(&self) -> Seq<Stream> {
        self.stream_list()
    }

    open spec fn seek_admits(&self, stream_index: usize, timestamp: i64) -> bool {
        true
    }

    open spec fn read_admits(&self) -> bool {
        self.samples_read() + 65535 <= u64::MAX
    }

    fn read_admitted(&self) -> (b: bool)
        ensures
            b == self.read_admits(),
    {
        self.frame_number <= u64::MAX - 65535
    }

    fn seek_admitted(&self, stream_index: usize, timestamp: i64) -> (b: bool)
        ensures
            b == self.seek_admits(stream_index, timestamp),
    {
        true
    }


    fn format_id(&self) -> (r: FormatId)
        ensures
            r == FormatId::FlacContainer,
    {
        FormatId::FlacContainer
    }

    fn name(&self) -> (r: &'static str)
        ensures
            r@ == "flac"@,
    {
        "flac"
    }

    fn open(&mut self, io: &mut IoContext) -> (r: TaoResult<()>)
        ensures
            Self::open_post(*old(self), *final(self), *old(io), *final(io), r),
    {
        self.open_flac(io)
    }

    fn streams(&self) -> (r: &[Stream])
        ensures
            r@ == self.stream_list(),
    {
        self.streams.as_slice()
    }

    fn read_packet(&mut self, io: &mut IoContext) -> (r: TaoResult<Packet>)
        ensures
            Self::read_post(*old(self), *final(self), *old(io), *final(io), r),
    {
        self.read_flac_packet(io)
    }

    fn seek(&mut self, io: &mut IoContext, stream_index: usize, timestamp: i64, flags: SeekFlags) -> (r: TaoResult<()>)
        ensures
            r is Ok,
            final(io).cursor() == old(self).frames_start(),
            final(self).read_pos() == old(self).frames_start(),
            final(self).samples_read() == 0,
    {
        self.seek_flac(io)
    }

    fn metadata(&self) -> (r: &[(String, String)])
        ensures
            pair_views(r@) == self.meta_views(),
    {
        self.metadata.as_slice()
    }
}

} // verus!

//! Ogg: pages that start with `OggS`, each carrying a segment table that
//! cuts the page body into packets of one or more logical streams.

use vstd::prelude::*;
use crate::probe::{
    FormatProbe, ProbeScore, SCORE_EXTENSION, SCORE_MAX, SCORE_MIME, has_tag, tag_at, str_views,
    name_ascii_ends_in, filename_ascii_ends_in, name_lower_ends_with, filename_lower_ends_with,
    ext_lower_in, filename_lower_ext_in, ext_matches_ci, filename_ext_is,
};
use crate::format_id::FormatId;
use crate::probe::{syncsafe_size, syncsafe_len};
use crate::media::{
    AudioStreamParams, ChannelLayout, CodecId, MediaType, NOPTS_VALUE, Packet, PixelFormat, Rational,
    SampleFormat, SeekFlags, Stream, StreamParams, VideoStreamParams, codec_media_type,
};
use crate::endian::le32;
use crate::crc::{crc32_msb, crc32_msb_first};
use crate::io::{IoContext, SeekFrom, lemma_bytes_at_subrange};
use crate::error::{TaoError, TaoResult, invalid_data, not_implemented, unsupported};
use crate::demuxer::{Demuxer, io_in_range};
use crate::endian::{copy_bytes, push_all, push_tag, u32_from_le};

verus! {

/// The `OggS` capture pattern.
pub open spec fn ogg_sync() -> Seq<u8> {
    seq![0x4Fu8, 0x67, 0x67, 0x53]
}

/// What the Ogg probe answers.
pub open spec fn ogg_probe_score(d: Seq<u8>, filename: Option<&str>) -> Option<ProbeScore> {
    if tag_at(d, 0, ogg_sync()) {
        Some(SCORE_MAX)
    } else if d.len() >= 14 && d[0] == 0x49 && d[1] == 0x44 && d[2] == 0x33 && tag_at(
        d,
        10 + syncsafe_size(d[6], d[7], d[8], d[9]) as int,
        ogg_sync(),
    ) {
        Some((SCORE_MAX - 2) as u32)
    } else if ext_lower_in(filename, seq!["ogg"@, "ogv"@, "oga"@, "ogx"@, "spx"@]) {
        Some(SCORE_EXTENSION)
    } else {
        None
    }
}

/// Recogniser of Ogg files.
pub struct OggProbe;

impl FormatProbe for OggProbe {
    fn probe(&self, data: &[u8], filename: Option<&str>) -> (r: Option<ProbeScore>)
        ensures
            r == ogg_probe_score(data@, filename),
    {
        if has_tag(data, 0, &[0x4Fu8, 0x67, 0x67, 0x53]) {
            return Some(SCORE_MAX);
        }
        if data.len() >= 14 && data[0] == 0x49 && data[1] == 0x44 && data[2] == 0x33 {
            let size = syncsafe_len(data[6], data[7], data[8], data[9]);
            if has_tag(data, 10 + size, &[0x4Fu8, 0x67, 0x67, 0x53]) {
                return Some(SCORE_MAX - 2);
            }
        }
        let exts: [&str; 5] = ["ogg", "ogv", "oga", "ogx", "spx"];
        assert(str_views(exts@) =~= seq!["ogg"@, "ogv"@, "oga"@, "ogx"@, "spx"@]);
        if filename_lower_ext_in(filename, exts.as_slice()) {
            return Some(SCORE_EXTENSION);
        }
        None
    }

    fn format_id(&self) -> (r: FormatId)
        ensures
            r == FormatId::Ogg,
    {
        FormatId::Ogg
    }
}

/// Page flag: the first packet continues one from the previous page.
pub const FLAG_CONTINUED: u8 = 0x01;
/// Page flag: first page of a logical stream.
pub const FLAG_BOS: u8 = 0x02;
/// Page flag: last page of a logical stream.
pub const FLAG_EOS: u8 = 0x04;

/// A parsed Ogg page.
pub struct OggPage {
    /// Header flags.
    pub header_type: u8,
    /// Granule position (codec defined time of the last packet ending here).
    pub granule_position: i64,
    /// Serial number of the logical stream.
    pub serial_number: u32,
    /// Page sequence number.
    pub page_sequence: u32,
    /// Lacing values.
    pub segment_table: Vec<u8>,
    /// Page body.
    pub data: Vec<u8>,
}

/// Packets that the lacing values `segs[i..]` cut the page body into, as
/// (offset, length, complete), continuing a packet of `cur` bytes that
/// starts at `offset`: a value below 255 ends a packet; a run of 255 at the
/// end leaves it incomplete.
pub open spec fn lacing_packets(segs: Seq<u8>, i: int, offset: nat, cur: nat) -> Seq<(usize, usize, bool)>
    decreases segs.len() - i,
{
    if i < 0 || i >= segs.len() {
        if cur > 0 {
            seq![(offset as usize, cur as usize, false)]
        } else {
            seq![]
        }
    } else if segs[i] < 255 {
        seq![(offset as usize, (cur + segs[i]) as usize, true)] + lacing_packets(
            segs,
            i + 1,
            (offset + cur + segs[i]) as nat,
            0,
        )
    } else {
        lacing_packets(segs, i + 1, offset, (cur + segs[i]) as nat)
    }
}

impl OggPage {
    /// Whether the page starts a logical stream.
    pub fn is_bos(&self) -> (r: bool)
        ensures
            r == (self.header_type & FLAG_BOS != 0),
    {
        self.header_type & FLAG_BOS != 0
    }

    /// Whether the page ends a logical stream.
    pub fn is_eos(&self) -> (r: bool)
        ensures
            r == (self.header_type & FLAG_EOS != 0),
    {
        self.header_type & FLAG_EOS != 0
    }

    /// Whether the first packet continues one from the previous page.
    pub fn is_continued(&self) -> (r: bool)
        ensures
            r == (self.header_type & FLAG_CONTINUED != 0),
    {
        self.header_type & FLAG_CONTINUED != 0
    }

    /// Packet boundaries from the lacing values: (offset, length,
    /// complete) each. The lacing values must add up within `usize` (the
    /// offsets are sums of them).
    pub fn extract_packets(&self) -> (r: Vec<(usize, usize, bool)>)
        requires
            seg_total(self.segment_table@) <= usize::MAX,
        ensures
            r@ == lacing_packets(self.segment_table@, 0, 0, 0),
    {
        let mut packets: Vec<(usize, usize, bool)> = Vec::new();
        let mut offset: usize = 0;
        let mut current_len: usize = 0;
        let mut i: usize = 0;
        let n = self.segment_table.len();
        while i < n
            invariant
                n == self.segment_table@.len(),
                seg_total(self.segment_table@) <= usize::MAX,
                i <= n,
                offset + current_len == seg_total(self.segment_table@.subrange(0, i as int)),
                packets@ + lacing_packets(self.segment_table@, i as int, offset as nat, current_len as nat)
                    == lacing_packets(self.segment_table@, 0, 0, 0),
            decreases n - i,
        {
            proof {
                lemma_seg_total_step(self.segment_table@, i as int);
                lemma_seg_total_bound(self.segment_table@, i + 1);
            }
            let seg_size = self.segment_table[i];
            current_len = current_len + seg_size as usize;
            if seg_size < 255 {
                let ghost before = packets@;
                packets.push((offset, current_len, true));
                assert(packets@ == before + seq![(offset, current_len, true)]);
                offset = offset + current_len;
                current_len = 0;
            }
            i = i + 1;
        }
        if current_len > 0 {
            packets.push((offset, current_len, false));
        }
        assert(lacing_packets(self.segment_table@, n as int, offset as nat, current_len as nat)
            == (if current_len > 0 { seq![(offset, current_len, false)] } else { Seq::<(usize, usize, bool)>::empty() }));
        packets
    }
}

/// Negative granule positions (-1: no packet ends on the page) read as
/// "no timestamp".
pub open spec fn normalized_granule(g: i64) -> i64 {
    if g < 0 { NOPTS_VALUE } else { g }
}

/// Maps a negative granule position to `NOPTS_VALUE`.
pub fn normalize_granule(granule: i64) -> (r: i64)
    ensures
        r == normalized_granule(granule),
{
    if granule < 0 {
        NOPTS_VALUE
    } else {
        granule
    }
}

/// The Ogg page CRC (generator 0x04C11DB7, register starting at 0).
pub fn ogg_crc32(data: &[u8]) -> (r: u32)
    ensures
        r == crc32_msb(0, 0x04C1_1DB7, data@),
{
    crc32_msb_first(0, 0x04C1_1DB7, data)
}

/// Whether the bytes of `d` at `off` are `pat`.
pub open spec fn bytes_are(d: Seq<u8>, off: int, pat: Seq<u8>) -> bool {
    off + pat.len() <= d.len() && d.subrange(off, off + pat.len()) == pat
}

/// Codec of the first packet of a logical stream.
pub open spec fn ogg_codec_of(p: Seq<u8>) -> CodecId {
    if bytes_are(p, 1, seq![0x76u8, 0x6F, 0x72, 0x62, 0x69, 0x73]) {
        CodecId::Vorbis
    } else if bytes_are(p, 0, seq![0x4Fu8, 0x70, 0x75, 0x73, 0x48, 0x65, 0x61, 0x64]) {
        CodecId::Opus
    } else if bytes_are(p, 0, seq![0x66u8, 0x4C, 0x61, 0x43]) {
        CodecId::Flac
    } else if bytes_are(p, 0, seq![0x7Fu8, 0x46, 0x4C, 0x41, 0x43]) {
        CodecId::Flac
    } else if bytes_are(p, 1, seq![0x74u8, 0x68, 0x65, 0x6F, 0x72, 0x61]) {
        CodecId::Theora
    } else {
        CodecId::Unknown
    }
}

/// Whether `data` holds `pat` at `off`.
fn has_bytes(data: &[u8], off: usize, pat: &[u8]) -> (r: bool)
    requires
        off <= 8,
    ensures
        r == bytes_are(data@, off as int, pat@),
{
    if data.len() < off || data.len() - off < pat.len() {
        return false;
    }
    let mut k: usize = 0;
    while k < pat.len()
        invariant
            k <= pat@.len(),
            off + pat@.len() <= data.len(),
            forall|j: int| 0 <= j < k ==> data@[off + j] == pat@[j],
        decreases pat.len() - k,
    {
        if data[off + k] != pat[k] {
            assert(data@.subrange(off as int, off + pat@.len())[k as int] != pat@[k as int]);
            return false;
        }
        k = k + 1;
    }
    assert(data@.subrange(off as int, off + pat@.len()) =~= pat@);
    true
}

/// Identifies the codec from the first packet of a logical stream.
pub fn identify_codec(packet_data: &[u8]) -> (r: CodecId)
    ensures
        r == ogg_codec_of(packet_data@),
{
    let vorbis: [u8; 6] = [0x76, 0x6F, 0x72, 0x62, 0x69, 0x73];
    let opus: [u8; 8] = [0x4F, 0x70, 0x75, 0x73, 0x48, 0x65, 0x61, 0x64];
    let flac: [u8; 4] = [0x66, 0x4C, 0x61, 0x43];
    let flac_mapping: [u8; 5] = [0x7F, 0x46, 0x4C, 0x41, 0x43];
    let theora: [u8; 6] = [0x74, 0x68, 0x65, 0x6F, 0x72, 0x61];
    assert(vorbis@ =~= seq![0x76u8, 0x6F, 0x72, 0x62, 0x69, 0x73]);
    assert(opus@ =~= seq![0x4Fu8, 0x70, 0x75, 0x73, 0x48, 0x65, 0x61, 0x64]);
    assert(flac@ =~= seq![0x66u8, 0x4C, 0x61, 0x43]);
    assert(flac_mapping@ =~= seq![0x7Fu8, 0x46, 0x4C, 0x41, 0x43]);
    assert(theora@ =~= seq![0x74u8, 0x68, 0x65, 0x6F, 0x72, 0x61]);
    if has_bytes(packet_data, 1, vorbis.as_slice()) {
        return CodecId::Vorbis;
    }
    if has_bytes(packet_data, 0, opus.as_slice()) {
        return CodecId::Opus;
    }
    if has_bytes(packet_data, 0, flac.as_slice()) {
        return CodecId::Flac;
    }
    if has_bytes(packet_data, 0, flac_mapping.as_slice()) {
        return CodecId::Flac;
    }
    if has_bytes(packet_data, 1, theora.as_slice()) {
        return CodecId::Theora;
    }
    CodecId::Unknown
}

/// (sample rate, channels) of a Vorbis identification header.
pub open spec fn vorbis_header_of(d: Seq<u8>) -> Option<(u32, u32)> {
    if d.len() < 16 || d[0] != 1 || !bytes_are(d, 1, seq![0x76u8, 0x6F, 0x72, 0x62, 0x69, 0x73]) {
        None
    } else {
        Some((le32(d[12], d[13], d[14], d[15]) as u32, d[11] as u32))
    }
}

/// (sample rate, channels) of an Opus identification header.
pub open spec fn opus_header_of(d: Seq<u8>) -> Option<(u32, u32)> {
    if d.len() < 16 || !bytes_are(d, 0, seq![0x4Fu8, 0x70, 0x75, 0x73, 0x48, 0x65, 0x61, 0x64]) {
        None
    } else {
        Some((le32(d[12], d[13], d[14], d[15]) as u32, d[9] as u32))
    }
}

/// Reads sample rate and channel count from a Vorbis identification header.
pub fn parse_vorbis_header(data: &[u8]) -> (r: Option<(u32, u32)>)
    ensures
        r == vorbis_header_of(data@),
{
    let vorbis: [u8; 6] = [0x76, 0x6F, 0x72, 0x62, 0x69, 0x73];
    assert(vorbis@ =~= seq![0x76u8, 0x6F, 0x72, 0x62, 0x69, 0x73]);
    if data.len() < 16 || data[0] != 1 || !has_bytes(data, 1, vorbis.as_slice()) {
        return None;
    }
    let channels = data[11] as u32;
    let sample_rate = crate::endian::u32_from_le(data[12], data[13], data[14], data[15]);
    Some((sample_rate, channels))
}

/// Reads sample rate and channel count from an Opus identification header.
pub fn parse_opus_header(data: &[u8]) -> (r: Option<(u32, u32)>)
    ensures
        r == opus_header_of(data@),
{
    let opus: [u8; 8] = [0x4F, 0x70, 0x75, 0x73, 0x48, 0x65, 0x61, 0x64];
    assert(opus@ =~= seq![0x4Fu8, 0x70, 0x75, 0x73, 0x48, 0x65, 0x61, 0x64]);
    if data.len() < 16 || !has_bytes(data, 0, opus.as_slice()) {
        return None;
    }
    let channels = data[9] as u32;
    let sample_rate = crate::endian::u32_from_le(data[12], data[13], data[14], data[15]);
    Some((sample_rate, channels))
}

/// Sum of the lacing values: the page body size.
pub open spec fn seg_total(s: Seq<u8>) -> nat
    decreases s.len(),
{
    if s.len() == 0 {
        0
    } else {
        seg_total(s.drop_last()) + (s.last() as nat)
    }
}

/// Number of lacing values of the page at `p`.
pub open spec fn page_nseg(d: Seq<u8>, p: int) -> int {
    d[p + 26] as int
}

/// Lacing values of the page at `p`.
pub open spec fn page_segs(d: Seq<u8>, p: int) -> Seq<u8> {
    d.subrange(p + 27, p + 27 + page_nseg(d, p))
}

/// Offset of the body of the page at `p`.
pub open spec fn page_body_at(d: Seq<u8>, p: int) -> int {
    p + 27 + page_nseg(d, p)
}

/// Offset just past the page at `p`.
pub open spec fn page_end(d: Seq<u8>, p: int) -> int {
    page_body_at(d, p) + seg_total(page_segs(d, p))
}

/// The bytes the page CRC covers: the page with its CRC field zeroed.
pub open spec fn page_crc_input(d: Seq<u8>, p: int) -> Seq<u8> {
    d.subrange(p, p + 22) + seq![0u8, 0, 0, 0] + d.subrange(p + 26, page_end(d, p))
}

/// Granule position from its two little-endian halves, as a signed value.
pub open spec fn granule_of(lo: u32, hi: u32) -> i64 {
    if hi < 0x8000_0000 {
        (hi * 0x1_0000_0000 + lo) as i64
    } else {
        (hi * 0x1_0000_0000 + lo - 0x1_0000_0000_0000_0000) as i64
    }
}

/// How a page read at `p` ends.
#[derive(PartialEq, Eq, Structural)]
pub enum PageStatus {
    /// A whole page with a matching CRC.
    Whole,
    /// The data ended before the page did.
    Short,
    /// No `OggS` at `p`, or a version other than 0.
    Malformed,
    /// A whole page whose CRC does not match.
    BadCrc,
}

/// What reading a page at `p` finds, in the order the fields are read.
pub open spec fn page_status(d: Seq<u8>, p: int) -> PageStatus {
    if p + 4 > d.len() {
        PageStatus::Short
    } else if d.subrange(p, p + 4) != ogg_sync() {
        PageStatus::Malformed
    } else if p + 5 > d.len() {
        PageStatus::Short
    } else if d[p + 4] != 0 {
        PageStatus::Malformed
    } else if p + 27 > d.len() || page_body_at(d, p) > d.len() || page_end(d, p) > d.len() {
        PageStatus::Short
    } else if le32(d[p + 22], d[p + 23], d[p + 24], d[p + 25]) != crc32_msb(0, 0x04C1_1DB7, page_crc_input(d, p)) {
        PageStatus::BadCrc
    } else {
        PageStatus::Whole
    }
}

/// Where the cursor stands after reading a page at `p`.
pub open spec fn page_cursor(d: Seq<u8>, p: int) -> int {
    match page_status(d, p) {
        PageStatus::Short => if p >= d.len() { p } else { d.len() as int },
        PageStatus::Malformed => if d.subrange(p, p + 4) != ogg_sync() { p + 4 } else { p + 5 },
        _ => page_end(d, p),
    }
}

/// The fields of a page as plain values.
pub struct PageView {
    /// Header flags.
    pub header_type: u8,
    /// Granule position.
    pub granule_position: i64,
    /// Serial number of the logical stream.
    pub serial_number: u32,
    /// Page sequence number.
    pub page_sequence: u32,
    /// Lacing values.
    pub segs: Seq<u8>,
    /// Page body.
    pub data: Seq<u8>,
}

impl OggPage {
    /// The page's fields as plain values.
    pub open spec fn pv(&self) -> PageView {
        PageView {
            header_type: self.header_type,
            granule_position: self.granule_position,
            serial_number: self.serial_number,
            page_sequence: self.page_sequence,
            segs: self.segment_table@,
            data: self.data@,
        }
    }
}

/// The page at `p`, as the header and body bytes give it.
pub open spec fn page_view_at(d: Seq<u8>, p: int) -> PageView {
    PageView {
        header_type: d[p + 5],
        granule_position: granule_of(
            le32(d[p + 6], d[p + 7], d[p + 8], d[p + 9]) as u32,
            le32(d[p + 10], d[p + 11], d[p + 12], d[p + 13]) as u32,
        ),
        serial_number: le32(d[p + 14], d[p + 15], d[p + 16], d[p + 17]) as u32,
        page_sequence: le32(d[p + 18], d[p + 19], d[p + 20], d[p + 21]) as u32,
        segs: page_segs(d, p),
        data: d.subrange(page_body_at(d, p), page_end(d, p)),
    }
}

/// Whether `pg` holds the fields of the page at `p`.
pub open spec fn page_matches(pg: OggPage, d: Seq<u8>, p: int) -> bool {
    pg.pv() == page_view_at(d, p)
}

/// Why a page could not be read.
#[derive(PartialEq, Eq, Structural)]
pub enum PageFault {
    /// The data ended.
    Short,
    /// Not a page start.
    Malformed,
    /// The CRC does not match.
    BadCrc,
}

/// Sum of the lacing values, computed.
fn lacing_total(segs: &Vec<u8>) -> (r: usize)
    requires
        segs@.len() <= 255,
    ensures
        r == seg_total(segs@),
        r <= 65025,
{
    let mut total: usize = 0;
    let mut i: usize = 0;
    while i < segs.len()
        invariant
            i <= segs@.len(),
            segs@.len() <= 255,
            total == seg_total(segs@.subrange(0, i as int)),
            total <= 255 * i,
        decreases segs.len() - i,
    {
        assert(segs@.subrange(0, i + 1).drop_last() =~= segs@.subrange(0, i as int));
        total = total + segs[i] as usize;
        i = i + 1;
    }
    assert(segs@.subrange(0, i as int) =~= segs@);
    total
}

/// The signed granule position from its halves.
fn granule_from(lo: u32, hi: u32) -> (r: i64)
    ensures
        r == granule_of(lo, hi),
{
    if hi < 0x8000_0000 {
        (hi as i64) * 0x1_0000_0000 + lo as i64
    } else {
        ((hi as i64) - 0x1_0000_0000) * 0x1_0000_0000 + lo as i64
    }
}

/// Reads the rest of a page whose `OggS` and version 0 were just read, and
/// checks its CRC.
fn read_page_rest(io: &mut IoContext) -> (r: Result<OggPage, PageFault>)
    requires
        io_in_range(*old(io)),
        old(io).cursor() >= 5,
        old(io).cursor() <= old(io).contents().len(),
        old(io).contents().subrange(old(io).cursor() - 5, old(io).cursor() - 1) == ogg_sync(),
        old(io).contents()[old(io).cursor() - 1] == 0,
    ensures
        final(io).contents() == old(io).contents(),
        ({
            let d = old(io).contents();
            let q = old(io).cursor() - 5;
            &&& final(io).cursor() == page_cursor(d, q)
            &&& match page_status(d, q) {
                PageStatus::Whole => r matches Ok(pg) && page_matches(pg, d, q),
                PageStatus::Short => r == Err::<OggPage, PageFault>(PageFault::Short),
                PageStatus::BadCrc => r == Err::<OggPage, PageFault>(PageFault::BadCrc),
                PageStatus::Malformed => false,
            }
        }),
{
    let ghost d = io.contents();
    let ghost q = io.cursor() - 5;
    let h = match io.read_bytes(22) {
        Ok(v) => v,
        Err(_) => {
            return Err(PageFault::Short);
        },
    };
    assert(forall|k: int| 0 <= k < 22 ==> h@[k] == d[q + 5 + k]);
    let nseg = h[21] as usize;
    let segs = match io.read_bytes(nseg) {
        Ok(v) => v,
        Err(_) => {
            return Err(PageFault::Short);
        },
    };
    proof {
        lemma_bytes_at_subrange(d, (q + 27) as nat, nseg as nat);
    }
    assert(segs@ == page_segs(d, q));
    let size = lacing_total(&segs);
    let data = match io.read_bytes(size) {
        Ok(v) => v,
        Err(_) => {
            return Err(PageFault::Short);
        },
    };
    proof {
        lemma_bytes_at_subrange(d, page_body_at(d, q) as nat, size as nat);
    }
    let mut buf: Vec<u8> = Vec::new();
    buf.push(0x4F);
    buf.push(0x67);
    buf.push(0x67);
    buf.push(0x53);
    buf.push(0);
    push_all(&mut buf, &h[0..17]);
    buf.push(0);
    buf.push(0);
    buf.push(0);
    buf.push(0);
    buf.push(h[21]);
    push_all(&mut buf, segs.as_slice());
    push_all(&mut buf, data.as_slice());
    proof {
        let e = page_end(d, q);
        assert(d.subrange(q, q + 4) =~= d.subrange(old(io).cursor() - 5, old(io).cursor() - 1));
        assert(d.subrange(q, q + 22) =~= ogg_sync() + seq![0u8] + h@.subrange(0, 17));
        assert(d.subrange(q + 26, e) =~= seq![h@[21]] + segs@ + data@);
        assert(buf@ =~= page_crc_input(d, q));
    }
    let crc_calc = ogg_crc32(buf.as_slice());
    let crc = u32_from_le(h[17], h[18], h[19], h[20]);
    if crc != crc_calc {
        return Err(PageFault::BadCrc);
    }
    let lo = u32_from_le(h[1], h[2], h[3], h[4]);
    let hi = u32_from_le(h[5], h[6], h[7], h[8]);
    let serial_number = u32_from_le(h[9], h[10], h[11], h[12]);
    let page_sequence = u32_from_le(h[13], h[14], h[15], h[16]);
    Ok(OggPage {
        header_type: h[0],
        granule_position: granule_from(lo, hi),
        serial_number,
        page_sequence,
        segment_table: segs,
        data,
    })
}

/// Reads one page at the cursor and checks its CRC.
fn read_page(io: &mut IoContext) -> (r: Result<OggPage, PageFault>)
    requires
        io_in_range(*old(io)),
    ensures
        final(io).contents() == old(io).contents(),
        final(io).cursor() == page_cursor(old(io).contents(), old(io).cursor() as int),
        ({
            let d = old(io).contents();
            let p = old(io).cursor() as int;
            match page_status(d, p) {
                PageStatus::Whole => r matches Ok(pg) && page_matches(pg, d, p),
                PageStatus::Short => r == Err::<OggPage, PageFault>(PageFault::Short),
                PageStatus::Malformed => r == Err::<OggPage, PageFault>(PageFault::Malformed),
                PageStatus::BadCrc => r == Err::<OggPage, PageFault>(PageFault::BadCrc),
            }
        }),
{
    let ghost d = io.contents();
    let ghost p = io.cursor() as int;
    let tag = match io.read_tag() {
        Ok(t) => t,
        Err(_) => {
            return Err(PageFault::Short);
        },
    };
    proof {
        lemma_bytes_at_subrange(d, p as nat, 4);
    }
    if !(tag[0] == 0x4F && tag[1] == 0x67 && tag[2] == 0x67 && tag[3] == 0x53) {
        proof {
            if d.subrange(p, p + 4) == ogg_sync() {
                assert(d.subrange(p, p + 4)[0] == ogg_sync()[0]);
                assert(d.subrange(p, p + 4)[1] == ogg_sync()[1]);
                assert(d.subrange(p, p + 4)[2] == ogg_sync()[2]);
                assert(d.subrange(p, p + 4)[3] == ogg_sync()[3]);
            }
        }
        return Err(PageFault::Malformed);
    }
    assert(d.subrange(p, p + 4) =~= ogg_sync());
    let version = match io.read_u8() {
        Ok(v) => v,
        Err(_) => {
            return Err(PageFault::Short);
        },
    };
    if version != 0 {
        return Err(PageFault::Malformed);
    }
    read_page_rest(io)
}

/// Scanning for a page from a four-byte window at `q`: the first window
/// that reads `OggS`, has version 0 and starts a whole page with a good
/// CRC gives that page; a window with another version moves on by one
/// byte, a page with a bad CRC is skipped whole. `None` when the data ends
/// first. The second value is where the cursor ends.
pub open spec fn ogg_resync(d: Seq<u8>, q: int) -> (Option<int>, int)
    decreases d.len() - q,
{
    if q + 4 > d.len() {
        (None, if q >= d.len() { q } else { d.len() as int })
    } else if d.subrange(q, q + 4) == ogg_sync() {
        if q + 5 > d.len() {
            (None, d.len() as int)
        } else if d[q + 4] != 0 {
            ogg_resync(d, q + 1)
        } else {
            match page_status(d, q) {
                PageStatus::Whole => (Some(q), page_end(d, q)),
                PageStatus::BadCrc => ogg_resync(d, page_end(d, q)),
                _ => (None, d.len() as int),
            }
        }
    } else {
        ogg_resync(d, q + 1)
    }
}

/// The next page from `p`: pages with a bad CRC are skipped whole; where
/// no page starts, the data is scanned from the cursor for one. `None`
/// when the data ends first. The second value is where the cursor ends.
pub open spec fn ogg_next_page(d: Seq<u8>, p: int) -> (Option<int>, int)
    decreases d.len() - p,
{
    match page_status(d, p) {
        PageStatus::Whole => (Some(p), page_end(d, p)),
        PageStatus::Short => (None, page_cursor(d, p)),
        PageStatus::BadCrc => ogg_next_page(d, page_end(d, p)),
        PageStatus::Malformed => ogg_resync(d, page_cursor(d, p)),
    }
}

/// Reads the next page, skipping pages with a bad CRC and scanning for
/// `OggS` where the cursor is not at a page.
fn sync_to_page(io: &mut IoContext) -> (r: Result<OggPage, PageFault>)
    requires
        io_in_range(*old(io)),
    ensures
        final(io).contents() == old(io).contents(),
        ({
            let d = old(io).contents();
            let (found, c) = ogg_next_page(d, old(io).cursor() as int);
            &&& final(io).cursor() == c
            &&& match found {
                Some(q) => r matches Ok(pg) && page_matches(pg, d, q),
                None => r == Err::<OggPage, PageFault>(PageFault::Short),
            }
        }),
{
    let ghost d = io.contents();
    let ghost target = ogg_next_page(d, io.cursor() as int);
    loop
        invariant_except_break
            ogg_next_page(d, io.cursor() as int) == target,
        invariant
            io_in_range(*io),
            io.contents() == d,
            d == old(io).contents(),
            target == ogg_next_page(d, old(io).cursor() as int),
        ensures
            io_in_range(*io),
            io.contents() == d,
            ogg_resync(d, io.cursor() as int) == target,
        decreases d.len() + 1 - (if io.cursor() <= d.len() { io.cursor() as int } else { d.len() + 1int }),
    {
        let ghost c = io.cursor() as int;
        match read_page(io) {
            Ok(pg) => {
                return Ok(pg);
            },
            Err(PageFault::Short) => {
                return Err(PageFault::Short);
            },
            Err(PageFault::BadCrc) => {},
            Err(PageFault::Malformed) => {
                break;
            },
        }
    }
    let ghost c0 = io.cursor() as int;
    assert(ogg_resync(d, c0) == target);
    let first = match io.read_bytes(4) {
        Ok(v) => v,
        Err(_) => {
            return Err(PageFault::Short);
        },
    };
    let mut w0 = first[0];
    let mut w1 = first[1];
    let mut w2 = first[2];
    let mut w3 = first[3];
    loop
        invariant
            io_in_range(*io),
            io.contents() == d,
            d == old(io).contents(),
            target == ogg_next_page(d, old(io).cursor() as int),
            io.cursor() >= 4,
            io.cursor() <= d.len(),
            w0 == d[io.cursor() - 4],
            w1 == d[io.cursor() - 3],
            w2 == d[io.cursor() - 2],
            w3 == d[io.cursor() - 1],
            ogg_resync(d, io.cursor() - 4) == target,
        decreases d.len() - io.cursor(),
    {
        let ghost q = io.cursor() - 4;
        if w0 == 0x4F && w1 == 0x67 && w2 == 0x67 && w3 == 0x53 {
            assert(d.subrange(q, q + 4) =~= ogg_sync());
            let version = match io.read_u8() {
                Ok(v) => v,
                Err(_) => {
                    return Err(PageFault::Short);
                },
            };
            if version != 0 {
                w0 = w1;
                w1 = w2;
                w2 = w3;
                w3 = version;
                continue;
            }
            match read_page_rest(io) {
                Ok(pg) => {
                    return Ok(pg);
                },
                Err(PageFault::BadCrc) => {
                    let ghost e = io.cursor() as int;
                    let next = match io.read_bytes(4) {
                        Ok(v) => v,
                        Err(_) => {
                            assert(ogg_resync(d, e) == (None::<int>, d.len() as int));
                            return Err(PageFault::Short);
                        },
                    };
                    w0 = next[0];
                    w1 = next[1];
                    w2 = next[2];
                    w3 = next[3];
                },
                Err(_) => {
                    return Err(PageFault::Short);
                },
            }
        } else {
            proof {
                if d.subrange(q, q + 4) == ogg_sync() {
                    assert(d.subrange(q, q + 4)[0] == ogg_sync()[0]);
                    assert(d.subrange(q, q + 4)[1] == ogg_sync()[1]);
                    assert(d.subrange(q, q + 4)[2] == ogg_sync()[2]);
                    assert(d.subrange(q, q + 4)[3] == ogg_sync()[3]);
                }
            }
            let b = match io.read_u8() {
                Ok(v) => v,
                Err(_) => {
                    assert(ogg_resync(d, q + 1) == (None::<int>, d.len() as int));
                    return Err(PageFault::Short);
                },
            };
            w0 = w1;
            w1 = w2;
            w2 = w3;
            w3 = b;
        }
    }
}

/// What a logical stream carries from page to page.
pub struct LsModel {
    /// Bytes of a packet that continues on the next page.
    pub partial: Seq<u8>,
    /// Whether the pieces of a continued packet whose start was lost are
    /// being dropped.
    pub discarding: bool,
    /// Granule position of the last page that had one.
    pub last_granule: i64,
    /// Sequence number of the last page.
    pub last_seq: Option<u32>,
    /// Whether an end-of-stream page was seen.
    pub ended: bool,
}

/// A logical stream: its serial number, the stream it feeds and its
/// reassembly state.
pub struct OggLogicalStream {
    /// Serial number of the pages.
    pub serial_number: u32,
    /// Index of the stream its packets go to.
    pub stream_index: usize,
    /// Codec of the stream.
    pub codec_id: CodecId,
    /// Bytes of a packet that continues on the next page.
    pub partial_packet: Vec<u8>,
    /// Whether the pieces of a continued packet whose start was lost are
    /// being dropped.
    pub discarding_orphan_continued: bool,
    /// Granule position of the last page that had one.
    pub last_granule: i64,
    /// Sequence number of the last page.
    pub last_page_sequence: Option<u32>,
    /// Whether an end-of-stream page was seen.
    pub ended: bool,
}

impl OggLogicalStream {
    /// The reassembly state.
    pub open spec fn model(&self) -> LsModel {
        LsModel {
            partial: self.partial_packet@,
            discarding: self.discarding_orphan_continued,
            last_granule: self.last_granule,
            last_seq: self.last_page_sequence,
            ended: self.ended,
        }
    }
}

/// A logical stream as plain values.
pub struct LsSpec {
    /// Serial number of its pages.
    pub serial: u32,
    /// Index of the stream its packets go to.
    pub stream_index: usize,
    /// Codec of the stream.
    pub codec: CodecId,
    /// Reassembly state.
    pub m: LsModel,
}

/// The plain values of a logical stream.
pub open spec fn ls_spec(ls: OggLogicalStream) -> LsSpec {
    LsSpec { serial: ls.serial_number, stream_index: ls.stream_index, codec: ls.codec_id, m: ls.model() }
}

/// The plain values of each logical stream.
pub open spec fn ls_specs(ls: Seq<OggLogicalStream>) -> Seq<LsSpec> {
    Seq::new(ls.len(), |i: int| ls_spec(ls[i]))
}

/// The first logical stream from `i` with serial number `serial`.
pub open spec fn ls_index(ls: Seq<LsSpec>, serial: u32, i: int) -> Option<int>
    decreases ls.len() - i,
{
    if i < 0 || i >= ls.len() {
        None
    } else if ls[i].serial == serial {
        Some(i)
    } else {
        ls_index(ls, serial, i + 1)
    }
}

/// Whether a page starts a logical stream.
pub open spec fn page_bos(pg: PageView) -> bool {
    pg.header_type & FLAG_BOS != 0
}

/// Whether a page ends a logical stream.
pub open spec fn page_eos(pg: PageView) -> bool {
    pg.header_type & FLAG_EOS != 0
}

/// Whether a page's first packet continues one from the previous page.
pub open spec fn page_continued(pg: PageView) -> bool {
    pg.header_type & FLAG_CONTINUED != 0
}

/// The packets of a page.
pub open spec fn page_packets(pg: PageView) -> Seq<(usize, usize, bool)> {
    lacing_packets(pg.segs, 0, 0, 0)
}

/// The bytes of packet `i` of a page.
pub open spec fn page_chunk(pg: PageView, i: int) -> Seq<u8> {
    let pk = page_packets(pg)[i];
    pg.data.subrange(pk.0 as int, pk.0 + pk.1)
}

/// Index of the last complete packet among the first `i`, -1 when none.
pub open spec fn last_complete(pk: Seq<(usize, usize, bool)>, i: int) -> int
    decreases i,
{
    if i <= 0 {
        -1
    } else if pk[i - 1].2 {
        i - 1
    } else {
        last_complete(pk, i - 1)
    }
}

/// The sequence number that follows `prev`, wrapping at 2^32.
pub open spec fn next_seq(prev: u32) -> u32 {
    if prev == u32::MAX { 0 } else { (prev + 1) as u32 }
}

/// Packet `i` of a page taken into the state `m`: the new state and the
/// (granule, bytes) of the packet if it completes one. A continued first
/// packet joins the held bytes, or is dropped when none are held; a
/// complete packet is emitted unless lost pieces are being dropped, which
/// it ends; an incomplete one is held. Only the last complete packet of the
/// page (`last`) gets its granule position, and none does when `force` is
/// set.
pub open spec fn packet_step(m: LsModel, pg: PageView, i: int, force: bool, last: int) -> (LsModel, Seq<(i64, Seq<u8>)>) {
    let complete = page_packets(pg)[i].2;
    let chunk = page_chunk(pg, i);
    let g = if force { NOPTS_VALUE } else if i == last { normalized_granule(pg.granule_position) } else { NOPTS_VALUE };
    if i == 0 && page_continued(pg) {
        if m.partial.len() == 0 {
            (LsModel { discarding: !complete, ..m }, seq![])
        } else if complete {
            (LsModel { partial: seq![], discarding: false, ..m }, seq![(normalized_granule(g), m.partial + chunk)])
        } else {
            (LsModel { partial: m.partial + chunk, ..m }, seq![])
        }
    } else if complete {
        if m.discarding {
            (LsModel { discarding: false, ..m }, seq![])
        } else {
            (m, seq![(normalized_granule(g), chunk)])
        }
    } else if m.discarding {
        (m, seq![])
    } else {
        (LsModel { partial: m.partial + chunk, ..m }, seq![])
    }
}

/// The packets `i..` of a page taken into the state `m`, one after the
/// other: the final state and the packets completed, in order.
pub open spec fn take_packets(m: LsModel, pg: PageView, i: int, force: bool, last: int) -> (LsModel, Seq<(i64, Seq<u8>)>)
    decreases page_packets(pg).len() - i,
{
    if i < 0 || i >= page_packets(pg).len() {
        (m, seq![])
    } else {
        let step = packet_step(m, pg, i, force, last);
        let rest = take_packets(step.0, pg, i + 1, force, last);
        (rest.0, step.1 + rest.1)
    }
}

/// Whether a start-of-stream page restarts a running logical stream: its
/// first packet is complete and names a codec.
pub open spec fn page_restarts(pg: PageView) -> bool {
    &&& page_bos(pg)
    &&& page_packets(pg).len() > 0
    &&& page_packets(pg)[0].2
    &&& ogg_codec_of(page_chunk(pg, 0)) != CodecId::Unknown
}

/// Whether a page does not follow the previous one of its stream.
pub open spec fn page_breaks(m: LsModel, pg: PageView) -> bool {
    m.last_seq matches Some(prev) && pg.page_sequence != next_seq(prev)
}

/// One page of a logical stream taken into its state: the new state and
/// the (granule, bytes) of each packet completed, in order. A restart page
/// clears the state; an ended stream takes nothing more; a page that breaks
/// the sequence drops held bytes and emits no granule; bytes held from the
/// previous page are emitted when this page does not continue them; the
/// stream keeps the page's granule position when it has one, and ends at an
/// end-of-stream page.
pub open spec fn page_step(m0: LsModel, pg: PageView) -> (LsModel, Seq<(i64, Seq<u8>)>) {
    let m1 = if page_restarts(pg) {
        LsModel { partial: seq![], discarding: false, last_granule: NOPTS_VALUE, last_seq: Some(pg.page_sequence), ended: false }
    } else {
        m0
    };
    if m1.ended {
        (m1, seq![])
    } else {
        let force = page_breaks(m1, pg);
        let m2 = if force { LsModel { partial: seq![], discarding: page_continued(pg), ..m1 } } else { m1 };
        let m3 = LsModel { last_seq: Some(pg.page_sequence), ..m2 };
        let head: (LsModel, Seq<(i64, Seq<u8>)>) = if !page_continued(pg) && m3.partial.len() > 0 {
            if m3.discarding {
                (LsModel { partial: seq![], discarding: false, ..m3 }, seq![])
            } else {
                (LsModel { partial: seq![], ..m3 }, seq![(normalized_granule(m3.last_granule), m3.partial)])
            }
        } else {
            (m3, seq![])
        };
        let body = take_packets(head.0, pg, 0, force, last_complete(page_packets(pg), page_packets(pg).len() as int));
        let m6 = if !force && pg.granule_position >= 0 { LsModel { last_granule: pg.granule_position, ..body.0 } } else { body.0 };
        let m7 = if page_eos(pg) { LsModel { ended: true, ..m6 } } else { m6 };
        (m7, head.1 + body.1)
    }
}

/// Whether a page's lacing values and body agree.
pub open spec fn page_ok(pg: PageView) -> bool {
    pg.segs.len() <= 255 && pg.data.len() == seg_total(pg.segs)
}

/// Whether `p` is the packet emitted for stream `idx` with granule `g`,
/// bytes `data` and time base `tb`.
pub open spec fn emitted_is(p: Packet, idx: usize, g: i64, data: Seq<u8>, tb: Rational) -> bool {
    &&& p.stream_index == idx
    &&& p.payload() == data
    &&& p.pts == g
    &&& p.dts == g
    &&& p.is_keyframe
    &&& p.duration == 0
    &&& p.time_base == tb
    &&& p.pos == -1
}

/// Whether the packets `q` are those emitted for `out`, in order.
pub open spec fn all_emitted(q: Seq<Packet>, idx: usize, out: Seq<(i64, Seq<u8>)>, tb: Rational) -> bool {
    &&& q.len() == out.len()
    &&& forall|k: int| 0 <= k < q.len() ==> #[trigger] emitted_is(q[k], idx, out[k].0, out[k].1, tb)
}

/// Time base of stream `idx`, or 0/1 when there is none.
pub open spec fn time_base_of(streams: Seq<Stream>, idx: usize) -> Rational {
    if idx < streams.len() { streams[idx as int].time_base } else { Rational::new_spec(0, 1) }
}

/// Reader of Ogg files.
pub struct OggDemuxer {
    streams: Vec<Stream>,
    logical_streams: Vec<OggLogicalStream>,
    packet_queue: Vec<Packet>,
    eof: bool,
}

impl OggDemuxer {
    /// The streams found.
    pub closed spec fn stream_list(&self) -> Seq<Stream> {
        self.streams@
    }

    /// The logical streams, one per stream.
    pub closed spec fn logicals(&self) -> Seq<OggLogicalStream> {
        self.logical_streams@
    }

    /// Packets completed and not yet handed out, oldest first.
    pub closed spec fn queue(&self) -> Seq<Packet> {
        self.packet_queue@
    }

    /// Whether the input was read to its end.
    pub closed spec fn at_eof(&self) -> bool {
        self.eof
    }

    /// A demuxer before `open`.
    pub fn new() -> (r: Self)
        ensures
            r.stream_list().len() == 0,
            r.logicals().len() == 0,
            r.queue().len() == 0,
            !r.at_eof(),
    {
        OggDemuxer { streams: Vec::new(), logical_streams: Vec::new(), packet_queue: Vec::new(), eof: false }
    }

    /// The first logical stream with serial number `serial`.
    fn find_logical_stream(&self, serial: u32) -> (r: Option<usize>)
        ensures
            ls_index(ls_specs(self.logicals()), serial, 0) == (match r {
                Some(i) => Some(i as int),
                None => None::<int>,
            }),
            r matches Some(i) ==> i < self.logicals().len() && self.logicals()[i as int].serial_number == serial,
    {
        let mut i: usize = 0;
        while i < self.logical_streams.len()
            invariant
                i <= self.logical_streams@.len(),
                ls_index(ls_specs(self.logical_streams@), serial, 0) == ls_index(ls_specs(self.logical_streams@), serial, i as int),
            decreases self.logical_streams.len() - i,
        {
            assert(ls_specs(self.logical_streams@)[i as int] == ls_spec(self.logical_streams@[i as int]));
            if self.logical_streams[i].serial_number == serial {
                return Some(i);
            }
            i = i + 1;
        }
        None
    }

    /// Queues a packet of stream `stream_index` with granule `granule`.
    fn emit_packet(&mut self, stream_index: usize, granule: i64, data: Vec<u8>)
        ensures
            final(self).stream_list() == old(self).stream_list(),
            final(self).logicals() == old(self).logicals(),
            final(self).at_eof() == old(self).at_eof(),
            final(self).queue().len() == old(self).queue().len() + 1,
            final(self).queue().subrange(0, old(self).queue().len() as int) == old(self).queue(),
            emitted_is(
                final(self).queue()[old(self).queue().len() as int],
                stream_index,
                normalized_granule(granule),
                data@,
                time_base_of(old(self).stream_list(), stream_index),
            ),
    {
        let mut pkt = Packet::from_vec(data);
        pkt.stream_index = stream_index;
        let g = normalize_granule(granule);
        pkt.pts = g;
        pkt.dts = g;
        pkt.is_keyframe = true;
        if stream_index < self.streams.len() {
            pkt.time_base = self.streams[stream_index].time_base;
        }
        self.packet_queue.push(pkt);
        assert(self.packet_queue@.subrange(0, old(self).packet_queue@.len() as int) =~= old(self).packet_queue@);
    }
}

proof fn lemma_seg_total_step(s: Seq<u8>, i: int)
    requires
        0 <= i < s.len(),
    ensures
        seg_total(s.subrange(0, i + 1)) == seg_total(s.subrange(0, i)) + s[i],
{
    assert(s.subrange(0, i + 1).drop_last() =~= s.subrange(0, i));
}

proof fn lemma_seg_total_bound(s: Seq<u8>, i: int)
    requires
        0 <= i <= s.len(),
    ensures
        seg_total(s.subrange(0, i)) <= seg_total(s),
        seg_total(s) <= 255 * s.len(),
    decreases s.len() - i,
{
    if i < s.len() {
        lemma_seg_total_step(s, i);
        lemma_seg_total_bound(s, i + 1);
    } else {
        assert(s.subrange(0, i) =~= s);
        lemma_seg_total_cap(s);
    }
}

proof fn lemma_seg_total_cap(s: Seq<u8>)
    ensures
        seg_total(s) <= 255 * s.len(),
    decreases s.len(),
{
    if s.len() > 0 {
        lemma_seg_total_cap(s.drop_last());
    }
}

/// Each packet the lacing values cut lies inside the page body.
proof fn lemma_lacing_bounds(segs: Seq<u8>, i: int, offset: nat, cur: nat)
    requires
        0 <= i <= segs.len(),
        segs.len() <= 255,
        offset + cur == seg_total(segs.subrange(0, i)),
    ensures
        forall|k: int| 0 <= k < lacing_packets(segs, i, offset, cur).len() ==>
            (#[trigger] lacing_packets(segs, i, offset, cur)[k]).0 + lacing_packets(segs, i, offset, cur)[k].1
                <= seg_total(segs),
    decreases segs.len() - i,
{
    lemma_seg_total_bound(segs, i);
    if i < segs.len() {
        lemma_seg_total_step(segs, i);
        lemma_seg_total_bound(segs, i + 1);
        let lp = lacing_packets(segs, i, offset, cur);
        if segs[i] < 255 {
            let rest = lacing_packets(segs, i + 1, (offset + cur + segs[i]) as nat, 0);
            lemma_lacing_bounds(segs, i + 1, (offset + cur + segs[i]) as nat, 0);
            assert(lp == seq![(offset as usize, (cur + segs[i]) as usize, true)] + rest);
            assert forall|k: int| 0 <= k < lp.len() implies (#[trigger] lp[k]).0 + lp[k].1 <= seg_total(segs) by {
                if k > 0 {
                    assert(lp[k] == rest[k - 1]);
                }
            }
        } else {
            let rest = lacing_packets(segs, i + 1, offset, (cur + segs[i]) as nat);
            lemma_lacing_bounds(segs, i + 1, offset, (cur + segs[i]) as nat);
            assert(lp == rest);
        }
    } else {
        assert(segs.subrange(0, i) =~= segs);
        let lp = lacing_packets(segs, i, offset, cur);
        if cur > 0 {
            assert(lp == seq![(offset as usize, cur as usize, false)]);
            assert(lp[0].0 + lp[0].1 == offset + cur);
        } else {
            assert(lp.len() == 0);
        }
    }
}

proof fn lemma_emitted_concat(q: Seq<Packet>, lo: int, mid: int, hi: int, idx: usize, x: Seq<(i64, Seq<u8>)>, y: Seq<(i64, Seq<u8>)>, tb: Rational)
    requires
        0 <= lo <= mid <= hi <= q.len(),
        all_emitted(q.subrange(lo, mid), idx, x, tb),
        all_emitted(q.subrange(mid, hi), idx, y, tb),
    ensures
        all_emitted(q.subrange(lo, hi), idx, x + y, tb),
{
    let z = x + y;
    assert forall|k: int| 0 <= k < hi - lo implies #[trigger] emitted_is(q.subrange(lo, hi)[k], idx, z[k].0, z[k].1, tb) by {
        if k < mid - lo {
            assert(q.subrange(lo, hi)[k] == q.subrange(lo, mid)[k]);
            assert(emitted_is(q.subrange(lo, mid)[k], idx, x[k].0, x[k].1, tb));
        } else {
            assert(q.subrange(lo, hi)[k] == q.subrange(mid, hi)[k - (mid - lo)]);
            assert(emitted_is(q.subrange(mid, hi)[k - (mid - lo)], idx, y[k - (mid - lo)].0, y[k - (mid - lo)].1, tb));
        }
    }
}

proof fn lemma_queue_grow(
    oldq: Seq<Packet>,
    newq: Seq<Packet>,
    q0: int,
    q1: int,
    idx: usize,
    head: Seq<(i64, Seq<u8>)>,
    body: Seq<(i64, Seq<u8>)>,
    e: (i64, Seq<u8>),
    tb: Rational,
)
    requires
        0 <= q0 <= q1 <= oldq.len(),
        newq.len() == oldq.len() + 1,
        newq.subrange(0, oldq.len() as int) == oldq,
        all_emitted(oldq.subrange(q0, q1), idx, head, tb),
        all_emitted(oldq.subrange(q1, oldq.len() as int), idx, body, tb),
        emitted_is(newq[oldq.len() as int], idx, e.0, e.1, tb),
    ensures
        newq.subrange(0, q0) == oldq.subrange(0, q0),
        all_emitted(newq.subrange(q0, q1), idx, head, tb),
        all_emitted(newq.subrange(q1, newq.len() as int), idx, body + seq![e], tb),
{
    let n = oldq.len() as int;
    assert(newq.subrange(0, q0) =~= oldq.subrange(0, q0));
    assert(newq.subrange(q0, q1) =~= oldq.subrange(q0, q1));
    assert(newq.subrange(q1, n) =~= oldq.subrange(q1, n));
    assert(all_emitted(newq.subrange(n, n + 1), idx, seq![e], tb)) by {
        assert(newq.subrange(n, n + 1)[0] == newq[n]);
    }
    lemma_emitted_concat(newq, q1, n, n + 1, idx, body, seq![e], tb);
}

/// Index of the last complete packet.
fn last_complete_index(pk: &Vec<(usize, usize, bool)>) -> (r: Option<usize>)
    ensures
        match r {
            Some(j) => j == last_complete(pk@, pk@.len() as int),
            None => last_complete(pk@, pk@.len() as int) == -1,
        },
{
    let mut j: usize = pk.len();
    while j > 0
        invariant
            j <= pk@.len(),
            last_complete(pk@, pk@.len() as int) == last_complete(pk@, j as int),
        decreases j,
    {
        if pk[j - 1].2 {
            return Some(j - 1);
        }
        j = j - 1;
    }
    None
}

/// The reassembly state held in the fields of a logical stream.
pub open spec fn model_of(partial: Seq<u8>, discarding: bool, last_granule: i64, last_seq: Option<u32>, ended: bool) -> LsModel {
    LsModel { partial, discarding, last_granule, last_seq, ended }
}

impl OggDemuxer {
    /// What taking `page` does: the page of an unknown logical stream is
    /// skipped; otherwise that stream's state becomes the one `page_step`
    /// gives, and the packets it completes are queued for its stream.
    pub open spec fn page_post(old_self: Self, new_self: Self, page: PageView) -> bool {
        &&& new_self.stream_list() == old_self.stream_list()
        &&& new_self.at_eof() == old_self.at_eof()
        &&& match ls_index(ls_specs(old_self.logicals()), page.serial_number, 0) {
            None => new_self.logicals() == old_self.logicals() && new_self.queue() == old_self.queue(),
            Some(i) => {
                let ls = old_self.logicals()[i as int];
                let step = page_step(ls.model(), page);
                let n = old_self.queue().len() as int;
                &&& new_self.logicals().len() == old_self.logicals().len()
                &&& forall|j: int| 0 <= j < old_self.logicals().len() && j != i ==> new_self.logicals()[j] == old_self.logicals()[j]
                &&& new_self.logicals()[i as int].model() == step.0
                &&& new_self.logicals()[i as int].serial_number == ls.serial_number
                &&& new_self.logicals()[i as int].stream_index == ls.stream_index
                &&& new_self.logicals()[i as int].codec_id == ls.codec_id
                &&& new_self.queue().len() >= n
                &&& new_self.queue().subrange(0, n) == old_self.queue()
                &&& all_emitted(new_self.queue().subrange(n, new_self.queue().len() as int), ls.stream_index, step.1, time_base_of(old_self.stream_list(), ls.stream_index))
            },
        }
    }

    /// Takes packet `i` of `page` into the held bytes and drop flag, and
    /// queues the packet it completes.
    fn take_packet(
        &mut self,
        page: &OggPage,
        i: usize,
        off: usize,
        len: usize,
        complete: bool,
        g: i64,
        stream_idx: usize,
        partial: &mut Vec<u8>,
        discarding: &mut bool,
        Ghost(m): Ghost<LsModel>,
        Ghost(force): Ghost<bool>,
        Ghost(lc): Ghost<int>,
    )
        requires
            i < page_packets(page.pv()).len(),
            page_packets(page.pv())[i as int] == (off, len, complete),
            off + len <= page.data@.len(),
            page.data@.len() <= 65025,
            g == (if force { NOPTS_VALUE } else if i == lc { normalized_granule(page.granule_position) } else { NOPTS_VALUE }),
            m.partial == old(partial)@,
            m.discarding == *old(discarding),
        ensures
            ({
                let step = packet_step(m, page.pv(), i as int, force, lc);
                &&& final(partial)@ == step.0.partial
                &&& *final(discarding) == step.0.discarding
                &&& step.0.last_granule == m.last_granule
                &&& step.0.last_seq == m.last_seq
                &&& step.0.ended == m.ended
                &&& step.1.len() <= 1
                &&& final(self).stream_list() == old(self).stream_list()
                &&& final(self).logicals() == old(self).logicals()
                &&& final(self).at_eof() == old(self).at_eof()
                &&& final(self).queue().len() == old(self).queue().len() + step.1.len()
                &&& final(self).queue().subrange(0, old(self).queue().len() as int) == old(self).queue()
                &&& step.1.len() == 1 ==> emitted_is(
                    final(self).queue()[old(self).queue().len() as int],
                    stream_idx,
                    step.1[0].0,
                    step.1[0].1,
                    time_base_of(old(self).stream_list(), stream_idx),
                )
            }),
    {
        assert(page.data@.subrange(off as int, off + len) == page_chunk(page.pv(), i as int));
        if i == 0 && page.is_continued() {
            if partial.len() == 0 {
                *discarding = !complete;
            } else {
                push_all(partial, &page.data[off..off + len]);
                if complete {
                    let mut data: Vec<u8> = Vec::new();
                    std::mem::swap(&mut data, partial);
                    *discarding = false;
                    self.emit_packet(stream_idx, g, data);
                }
            }
        } else if complete {
            if *discarding {
                *discarding = false;
            } else {
                let data = copy_bytes(&page.data[off..off + len]);
                self.emit_packet(stream_idx, g, data);
            }
        } else if !*discarding {
            push_all(partial, &page.data[off..off + len]);
        }
        proof {
            if old(self).packet_queue@.len() == self.packet_queue@.len() {
                assert(self.packet_queue@.subrange(0, old(self).packet_queue@.len() as int) =~= old(self).packet_queue@);
            }
        }
    }

    /// Takes a page into its logical stream.
    #[verifier::rlimit(100)]
    #[verifier::spinoff_prover]
    fn process_page(&mut self, page: OggPage)
        requires
            page_ok(page.pv()),
        ensures
            Self::page_post(*old(self), *final(self), page.pv()),
    {
        let idx = match self.find_logical_stream(page.serial_number) {
            Some(i) => i,
            None => {
                return;
            },
        };
        proof {
            lemma_seg_total_cap(page.segment_table@);
        }
        let packets = page.extract_packets();
        proof {
            assert(page.segment_table@.subrange(0, 0) =~= Seq::<u8>::empty());
            lemma_lacing_bounds(page.segment_table@, 0, 0, 0);
            lemma_seg_total_cap(page.segment_table@);
        }
        let stream_idx = self.logical_streams[idx].stream_index;
        let serial = self.logical_streams[idx].serial_number;
        let codec = self.logical_streams[idx].codec_id;
        let mut partial = copy_bytes(self.logical_streams[idx].partial_packet.as_slice());
        let mut discarding = self.logical_streams[idx].discarding_orphan_continued;
        let mut last_granule = self.logical_streams[idx].last_granule;
        let mut last_seq = self.logical_streams[idx].last_page_sequence;
        let mut ended = self.logical_streams[idx].ended;
        let ghost tb = time_base_of(self.streams@, stream_idx);
        if page.is_bos() && packets.len() > 0 && packets[0].2 {
            let o = packets[0].0;
            let l = packets[0].1;
            assert(packets@[0].0 + packets@[0].1 <= page.data@.len());
            let c = identify_codec(&page.data[o..o + l]);
            assert(page.data@.subrange(o as int, o + l) == page_chunk(page.pv(), 0));
            if c != CodecId::Unknown {
                partial = Vec::new();
                discarding = false;
                last_granule = NOPTS_VALUE;
                last_seq = Some(page.page_sequence);
                ended = false;
            }
        }
        let ghost m1 = model_of(partial@, discarding, last_granule, last_seq, ended);
        assert(m1 == (if page_restarts(page.pv()) {
            LsModel { partial: seq![], discarding: false, last_granule: NOPTS_VALUE, last_seq: Some(page.page_sequence), ended: false }
        } else {
            self.logical_streams@[idx as int].model()
        }));
        if ended {
            self.logical_streams.set(idx, OggLogicalStream {
                serial_number: serial,
                stream_index: stream_idx,
                codec_id: codec,
                partial_packet: partial,
                discarding_orphan_continued: discarding,
                last_granule,
                last_page_sequence: last_seq,
                ended,
            });
            proof {
                assert(self.packet_queue@.subrange(0, self.packet_queue@.len() as int) =~= self.packet_queue@);
                assert(self.packet_queue@.subrange(self.packet_queue@.len() as int, self.packet_queue@.len() as int) =~= Seq::<Packet>::empty());
            }
            return;
        }
        let force = match last_seq {
            Some(prev) => page.page_sequence != (if prev == u32::MAX { 0 } else { prev + 1 }),
            None => false,
        };
        if force {
            partial = Vec::new();
            discarding = page.is_continued();
        }
        last_seq = Some(page.page_sequence);
        let continued = page.is_continued();
        let ghost q0 = self.packet_queue@.len() as int;
        let ghost m3 = model_of(partial@, discarding, last_granule, last_seq, ended);
        if !continued && partial.len() > 0 {
            if discarding {
                partial = Vec::new();
                discarding = false;
            } else {
                let data = partial;
                partial = Vec::new();
                self.emit_packet(stream_idx, last_granule, data);
            }
        }
        let ghost head_out: Seq<(i64, Seq<u8>)> = if !continued && m3.partial.len() > 0 && !m3.discarding {
            seq![(normalized_granule(m3.last_granule), m3.partial)]
        } else {
            seq![]
        };
        let ghost q1 = self.packet_queue@.len() as int;
        proof {
            assert(self.packet_queue@.subrange(0, q0) =~= old(self).packet_queue@);
            assert(all_emitted(self.packet_queue@.subrange(q0, q1), stream_idx, head_out, tb));
        }
        let last = last_complete_index(&packets);
        let ghost lc = last_complete(page_packets(page.pv()), page_packets(page.pv()).len() as int);
        let ghost head_model = model_of(partial@, discarding, last_granule, last_seq, ended);
        let ghost target = take_packets(head_model, page.pv(), 0, force, lc);
        let ghost mut out_so_far: Seq<(i64, Seq<u8>)> = seq![];
        assert(self.packet_queue@.subrange(q1, q1) =~= Seq::<Packet>::empty());
        let mut i: usize = 0;
        while i < packets.len()
            invariant
                i <= packets@.len(),
                packets@ == page_packets(page.pv()),
                page_ok(page.pv()),
                page.data@.len() <= 65025,
                forall|k: int| 0 <= k < packets@.len() ==> (#[trigger] packets@[k]).0 + packets@[k].1 <= page.data@.len(),
                idx < self.logical_streams@.len(),
                self.logical_streams@ == old(self).logical_streams@,
                self.streams@ == old(self).streams@,
                self.eof == old(self).eof,
                tb == time_base_of(self.streams@, stream_idx),
                continued == page_continued(page.pv()),
                match last {
                    Some(j) => j == lc,
                    None => lc == -1,
                },
                lc == last_complete(page_packets(page.pv()), page_packets(page.pv()).len() as int),
                target == take_packets(head_model, page.pv(), 0, force, lc),
                take_packets(model_of(partial@, discarding, last_granule, last_seq, ended), page.pv(), i as int, force, lc).0 == target.0,
                out_so_far + take_packets(model_of(partial@, discarding, last_granule, last_seq, ended), page.pv(), i as int, force, lc).1 == target.1,
                last_granule == head_model.last_granule,
                last_seq == head_model.last_seq,
                ended == head_model.ended,
                0 <= q0 <= q1 <= self.packet_queue@.len(),
                self.packet_queue@.subrange(0, q0) == old(self).packet_queue@,
                all_emitted(self.packet_queue@.subrange(q0, q1), stream_idx, head_out, tb),
                all_emitted(self.packet_queue@.subrange(q1, self.packet_queue@.len() as int), stream_idx, out_so_far, tb),
            decreases packets.len() - i,
        {
            let ghost cur = model_of(partial@, discarding, last_granule, last_seq, ended);
            let ghost qbefore = self.packet_queue@;
            let off = packets[i].0;
            let len = packets[i].1;
            let complete = packets[i].2;
            assert(packets@[i as int].0 + packets@[i as int].1 <= page.data@.len());
            let g = if force {
                NOPTS_VALUE
            } else if last == Some(i) {
                normalize_granule(page.granule_position)
            } else {
                NOPTS_VALUE
            };
            self.take_packet(&page, i, off, len, complete, g, stream_idx, &mut partial, &mut discarding, Ghost(cur), Ghost(force), Ghost(lc));
            proof {
                let st = packet_step(cur, page.pv(), i as int, force, lc);
                let rest = take_packets(st.0, page.pv(), i + 1, force, lc);
                assert(st.0 == model_of(partial@, discarding, last_granule, last_seq, ended));
                assert(take_packets(cur, page.pv(), i as int, force, lc) == (rest.0, st.1 + rest.1));
                if st.1.len() == 1 {
                    assert(q0 <= q1);
                    assert(q1 <= qbefore.len());
                    lemma_queue_grow(qbefore, self.packet_queue@, q0, q1, stream_idx, head_out, out_so_far, st.1[0], tb);
                    assert(seq![st.1[0]] =~= st.1);
                } else {
                    assert(out_so_far + st.1 =~= out_so_far);
                    assert(self.packet_queue@ =~= qbefore);
                }
                assert(out_so_far + (st.1 + rest.1) =~= (out_so_far + st.1) + rest.1);
                out_so_far = out_so_far + st.1;
            }
            i = i + 1;
        }
        if !force && page.granule_position >= 0 {
            last_granule = page.granule_position;
        }
        if page.is_eos() {
            ended = true;
        }
        proof {
            assert(take_packets(model_of(partial@, discarding, head_model.last_granule, head_model.last_seq, head_model.ended), page.pv(), i as int, force, lc) == (model_of(partial@, discarding, head_model.last_granule, head_model.last_seq, head_model.ended), Seq::<(i64, Seq<u8>)>::empty()));
            assert(out_so_far =~= target.1);
            lemma_emitted_concat(self.packet_queue@, q0, q1, self.packet_queue@.len() as int, stream_idx, head_out, out_so_far, tb);
        }
        self.logical_streams.set(idx, OggLogicalStream {
            serial_number: serial,
            stream_index: stream_idx,
            codec_id: codec,
            partial_packet: partial,
            discarding_orphan_continued: discarding,
            last_granule,
            last_page_sequence: last_seq,
            ended,
        });
    }
}

/// (sample rate, channels) of an audio stream of codec `c` whose first
/// packet is `p`: from the Vorbis or Opus identification header when it
/// parses, else 44100 Hz (48000 for Opus) and two channels.
pub open spec fn ogg_audio_shape(c: CodecId, p: Seq<u8>) -> (u32, u32) {
    match c {
        CodecId::Vorbis => match vorbis_header_of(p) {
            Some(x) => x,
            None => (44100u32, 2u32),
        },
        CodecId::Opus => match opus_header_of(p) {
            Some(x) => x,
            None => (48000u32, 2u32),
        },
        _ => (44100u32, 2u32),
    }
}

/// Time base of a stream of codec `c` whose first packet is `p`: 1/48000
/// for Opus, one over the sample rate for Vorbis, 1/1000 otherwise.
pub open spec fn ogg_time_base(c: CodecId, p: Seq<u8>) -> Rational {
    match c {
        CodecId::Opus => Rational::new_spec(1, 48000),
        CodecId::Vorbis => Rational::new_spec(1, ogg_audio_shape(c, p).0 as i32),
        _ => Rational::new_spec(1, 1000),
    }
}

/// Whether `s` is the stream number `index` that a logical stream of codec
/// `c` with first packet `p` gives, its duration aside.
pub open spec fn ogg_stream_is(s: Stream, c: CodecId, p: Seq<u8>, index: usize) -> bool {
    &&& s.index == index
    &&& s.media_type == codec_media_type(c)
    &&& s.codec_id == c
    &&& s.time_base == ogg_time_base(c, p)
    &&& s.start_time == 0
    &&& s.nb_frames == 0
    &&& s.extra_data@ == p
    &&& s.metadata@.len() == 0
    &&& match codec_media_type(c) {
        MediaType::Audio => s.params matches StreamParams::Audio(a) && {
            &&& a.sample_rate == ogg_audio_shape(c, p).0
            &&& a.channel_layout.channels == ogg_audio_shape(c, p).1
            &&& a.sample_format == (if c == CodecId::Vorbis { SampleFormat::S16 } else { SampleFormat::F32 })
            &&& a.bit_rate == 0
            &&& a.frame_size == 0
        },
        MediaType::Video => s.params matches StreamParams::Video(v) && {
            &&& v.width == 0
            &&& v.height == 0
            &&& v.pixel_format == PixelFormat::Yuv420p
            &&& v.frame_rate == Rational::new_spec(0, 1)
            &&& v.sample_aspect_ratio == Rational::new_spec(1, 1)
            &&& v.bit_rate == 0
        },
        _ => s.params is Other,
    }
}

/// The state of a logical stream whose first page has sequence `seq`.
pub open spec fn fresh_ls(seq: u32) -> LsModel {
    LsModel { partial: seq![], discarding: false, last_granule: NOPTS_VALUE, last_seq: Some(seq), ended: false }
}

impl OggDemuxer {
    /// What taking a start-of-stream page for a new logical stream does:
    /// nothing when it has no packet; otherwise a stream described by its
    /// first packet and a logical stream with the page's serial number are
    /// added.
    pub open spec fn bos_post(old_self: Self, new_self: Self, pg: PageView) -> bool {
        &&& new_self.queue() == old_self.queue()
        &&& new_self.at_eof() == old_self.at_eof()
        &&& if page_packets(pg).len() == 0 {
            new_self.stream_list() == old_self.stream_list() && new_self.logicals() == old_self.logicals()
        } else {
            let p = page_chunk(pg, 0);
            let c = ogg_codec_of(p);
            let n = old_self.stream_list().len();
            &&& new_self.stream_list().len() == n + 1
            &&& new_self.stream_list().subrange(0, n as int) == old_self.stream_list()
            &&& ogg_stream_is(new_self.stream_list()[n as int], c, p, n as usize)
            &&& new_self.stream_list()[n as int].duration == -1
            &&& new_self.logicals().len() == old_self.logicals().len() + 1
            &&& new_self.logicals().subrange(0, old_self.logicals().len() as int) == old_self.logicals()
            &&& new_self.logicals().last().serial_number == pg.serial_number
            &&& new_self.logicals().last().stream_index == n
            &&& new_self.logicals().last().codec_id == c
            &&& new_self.logicals().last().model() == fresh_ls(pg.page_sequence)
        }
    }

    /// Takes a start-of-stream page: adds its stream and logical stream.
    fn handle_bos_page(&mut self, page: &OggPage)
        requires
            page_ok(page.pv()),
        ensures
            Self::bos_post(*old(self), *final(self), page.pv()),
    {
        proof {
            lemma_seg_total_cap(page.segment_table@);
        }
        let packets = page.extract_packets();
        if packets.len() == 0 {
            return;
        }
        proof {
            assert(page.segment_table@.subrange(0, 0) =~= Seq::<u8>::empty());
            lemma_lacing_bounds(page.segment_table@, 0, 0, 0);
            lemma_seg_total_cap(page.segment_table@);
        }
        let off = packets[0].0;
        let len = packets[0].1;
        assert(packets@[0].0 + packets@[0].1 <= page.data@.len());
        let packet_data = &page.data[off..off + len];
        assert(packet_data@ == page_chunk(page.pv(), 0));
        let codec_id = identify_codec(packet_data);
        let stream_index = self.streams.len();
        let media_type = codec_id.media_type();
        let params = match media_type {
            MediaType::Audio => {
                let shape = match codec_id {
                    CodecId::Vorbis => match parse_vorbis_header(packet_data) {
                        Some(x) => x,
                        None => (44100, 2),
                    },
                    CodecId::Opus => match parse_opus_header(packet_data) {
                        Some(x) => x,
                        None => (48000, 2),
                    },
                    _ => (44100, 2),
                };
                let sample_format = match codec_id {
                    CodecId::Vorbis => SampleFormat::S16,
                    _ => SampleFormat::F32,
                };
                StreamParams::Audio(AudioStreamParams {
                    sample_rate: shape.0,
                    channel_layout: ChannelLayout::from_channels(shape.1),
                    sample_format,
                    bit_rate: 0,
                    frame_size: 0,
                })
            },
            MediaType::Video => StreamParams::Video(VideoStreamParams {
                width: 0,
                height: 0,
                pixel_format: PixelFormat::Yuv420p,
                frame_rate: Rational::new(0, 1),
                sample_aspect_ratio: Rational::new(1, 1),
                bit_rate: 0,
            }),
            _ => StreamParams::Other,
        };
        let time_base = match codec_id {
            CodecId::Opus => Rational::new(1, 48000),
            CodecId::Vorbis => match &params {
                StreamParams::Audio(a) => Rational::new(1, a.sample_rate as i32),
                _ => Rational::new(1, 44100),
            },
            _ => Rational::new(1, 1000),
        };
        let stream = Stream {
            index: stream_index,
            media_type,
            codec_id,
            time_base,
            duration: -1,
            start_time: 0,
            nb_frames: 0,
            extra_data: copy_bytes(packet_data),
            params,
            metadata: Vec::new(),
        };
        self.streams.push(stream);
        self.logical_streams.push(OggLogicalStream {
            serial_number: page.serial_number,
            stream_index,
            codec_id,
            partial_packet: Vec::new(),
            discarding_orphan_continued: false,
            last_granule: NOPTS_VALUE,
            last_page_sequence: Some(page.page_sequence),
            ended: false,
        });
        proof {
            assert(self.streams@.subrange(0, stream_index as int) =~= old(self).streams@);
            assert(self.logical_streams@.subrange(0, old(self).logical_streams@.len() as int) =~= old(self).logical_streams@);
            assert(self.logical_streams@.last().partial_packet@ =~= Seq::<u8>::empty());
        }
    }
}

proof fn lemma_resync_finds(d: Seq<u8>, q: int)
    ensures
        ogg_resync(d, q).0 matches Some(r) ==> r >= q && page_status(d, r) == PageStatus::Whole
            && ogg_resync(d, q).1 == page_end(d, r) && page_end(d, r) > r,
    decreases d.len() - q,
{
    if q + 4 <= d.len() {
        if d.subrange(q, q + 4) == ogg_sync() {
            if q + 5 <= d.len() && d[q + 4] != 0 {
                lemma_resync_finds(d, q + 1);
            } else if q + 5 <= d.len() && page_status(d, q) == PageStatus::BadCrc {
                lemma_resync_finds(d, page_end(d, q));
            }
        } else {
            lemma_resync_finds(d, q + 1);
        }
    }
}

/// Only whole pages whose CRC matches are read: the page found lies at or
/// after the cursor, is whole with a matching CRC, and the cursor ends just
/// past it.
pub proof fn lemma_next_page_finds(d: Seq<u8>, p: int)
    ensures
        ogg_next_page(d, p).0 matches Some(r) ==> r >= p && page_status(d, r) == PageStatus::Whole
            && ogg_next_page(d, p).1 == page_end(d, r) && page_end(d, r) > r,
    decreases d.len() - p,
{
    match page_status(d, p) {
        PageStatus::BadCrc => {
            lemma_next_page_finds(d, page_end(d, p));
        },
        PageStatus::Malformed => {
            lemma_resync_finds(d, page_cursor(d, p));
        },
        _ => {},
    }
}

/// A whole page's view has at most 255 lacing values and a body of their
/// total size.
proof fn lemma_whole_page_ok(d: Seq<u8>, q: int)
    requires
        0 <= q,
        page_status(d, q) == PageStatus::Whole,
    ensures
        page_ok(page_view_at(d, q)),
{
}

proof fn lemma_resync_cursor(d: Seq<u8>, q: int)
    requires
        0 <= q,
    ensures
        ogg_resync(d, q).1 <= d.len() || ogg_resync(d, q).1 == q,
    decreases d.len() - q,
{
    if q + 4 <= d.len() {
        if d.subrange(q, q + 4) == ogg_sync() {
            if q + 5 <= d.len() && d[q + 4] != 0 {
                lemma_resync_cursor(d, q + 1);
            } else if q + 5 <= d.len() && page_status(d, q) == PageStatus::BadCrc {
                lemma_resync_cursor(d, page_end(d, q));
            }
        } else {
            lemma_resync_cursor(d, q + 1);
        }
    }
}

/// The cursor ends inside the data, or where it was when it was past it.
proof fn lemma_next_page_cursor(d: Seq<u8>, p: int)
    requires
        0 <= p,
    ensures
        ogg_next_page(d, p).1 <= d.len() || ogg_next_page(d, p).1 == p,
    decreases d.len() - p,
{
    match page_status(d, p) {
        PageStatus::BadCrc => {
            lemma_next_page_cursor(d, page_end(d, p));
        },
        PageStatus::Malformed => {
            lemma_resync_cursor(d, page_cursor(d, p));
        },
        _ => {},
    }
}

/// The demuxer's state as plain values while pages are taken in: the
/// logical streams, the time base of each stream, the streams added and
/// the packets completed, as (stream, granule, bytes, time base).
pub struct DxModel {
    /// The logical streams.
    pub ls: Seq<LsSpec>,
    /// Time base of each stream.
    pub tbs: Seq<Rational>,
    /// (codec, first packet) of each stream added.
    pub added: Seq<(CodecId, Seq<u8>)>,
    /// Packets completed.
    pub out: Seq<(usize, i64, Seq<u8>, Rational)>,
}

/// Time base of each stream.
pub open spec fn tbs_of(st: Seq<Stream>) -> Seq<Rational> {
    Seq::new(st.len(), |i: int| st[i].time_base)
}

/// Time base `idx` of `tbs`, or 0/1.
pub open spec fn time_base_in(tbs: Seq<Rational>, idx: usize) -> Rational {
    if idx < tbs.len() { tbs[idx as int] } else { Rational::new_spec(0, 1) }
}

/// The packets of a logical stream feeding stream `idx`.
pub open spec fn tag_out(o: Seq<(i64, Seq<u8>)>, idx: usize, tb: Rational) -> Seq<(usize, i64, Seq<u8>, Rational)> {
    Seq::new(o.len(), |k: int| (idx, o[k].0, o[k].1, tb))
}

/// The model of a demuxer before pages are taken in.
pub open spec fn dx_start(s: OggDemuxer) -> DxModel {
    DxModel { ls: ls_specs(s.logicals()), tbs: tbs_of(s.stream_list()), added: seq![], out: seq![] }
}

/// A start-of-stream page taken in: a stream and a logical stream are
/// added, unless the page has no packet.
pub open spec fn dx_bos(mdl: DxModel, pv: PageView) -> DxModel {
    if page_packets(pv).len() == 0 {
        mdl
    } else {
        let p = page_chunk(pv, 0);
        let c = ogg_codec_of(p);
        DxModel {
            ls: mdl.ls.push(LsSpec { serial: pv.serial_number, stream_index: mdl.tbs.len() as usize, codec: c, m: fresh_ls(pv.page_sequence) }),
            tbs: mdl.tbs.push(ogg_time_base(c, p)),
            added: mdl.added.push((c, p)),
            out: mdl.out,
        }
    }
}

/// A page taken into its logical stream, by `page_step`; a page of an
/// unknown stream changes nothing.
pub open spec fn dx_process(mdl: DxModel, pv: PageView) -> DxModel {
    match ls_index(mdl.ls, pv.serial_number, 0) {
        None => mdl,
        Some(i) => {
            let l = mdl.ls[i as int];
            let st = page_step(l.m, pv);
            DxModel {
                ls: mdl.ls.update(i as int, LsSpec { m: st.0, ..l }),
                out: mdl.out + tag_out(st.1, l.stream_index, time_base_in(mdl.tbs, l.stream_index)),
                ..mdl
            }
        },
    }
}

/// A page taken in while reading packets: a start-of-stream page of a new
/// serial number adds its stream, any other page goes to its logical
/// stream.
pub open spec fn dx_read_page(mdl: DxModel, pv: PageView) -> DxModel {
    if page_bos(pv) && ls_index(mdl.ls, pv.serial_number, 0) is None {
        dx_bos(mdl, pv)
    } else {
        dx_process(mdl, pv)
    }
}

/// Pages taken in from `p` until one completes a packet or the data ends:
/// the model, where the cursor ends, and whether a packet came.
pub open spec fn dx_pump(mdl: DxModel, d: Seq<u8>, p: int) -> (DxModel, int, bool)
    decreases d.len() - p,
{
    let (f, c) = ogg_next_page(d, p);
    match f {
        None => (mdl, c, false),
        Some(q) => {
            let m2 = dx_read_page(mdl, page_view_at(d, q));
            if m2.out.len() > 0 {
                (m2, c, true)
            } else if c > p && c <= d.len() {
                dx_pump(m2, d, c)
            } else {
                (m2, c, false)
            }
        },
    }
}

/// Whether the demuxer `s` is in the state `mdl` gives, from the streams
/// `st0` and the queue `q0` it had when the model started.
pub open spec fn dx_holds(s: OggDemuxer, st0: Seq<Stream>, q0: Seq<Packet>, mdl: DxModel) -> bool {
    &&& ls_specs(s.logicals()) == mdl.ls
    &&& tbs_of(s.stream_list()) == mdl.tbs
    &&& s.stream_list().len() == st0.len() + mdl.added.len()
    &&& s.stream_list().subrange(0, st0.len() as int) == st0
    &&& forall|j: int| 0 <= j < mdl.added.len() ==> {
        &&& ogg_stream_is(#[trigger] s.stream_list()[st0.len() + j], mdl.added[j].0, mdl.added[j].1, (st0.len() + j) as usize)
        &&& s.stream_list()[st0.len() + j].duration == -1
    }
    &&& s.queue().len() == q0.len() + mdl.out.len()
    &&& s.queue().subrange(0, q0.len() as int) == q0
    &&& forall|k: int| 0 <= k < mdl.out.len() ==> emitted_is(#[trigger] s.queue()[q0.len() + k], mdl.out[k].0, mdl.out[k].1, mdl.out[k].2, mdl.out[k].3)
}

proof fn lemma_ls_index(ls: Seq<LsSpec>, serial: u32, k: int)
    ensures
        ls_index(ls, serial, k) matches Some(i) ==> 0 <= k <= i < ls.len() && ls[i].serial == serial,
    decreases ls.len() - k,
{
    if 0 <= k < ls.len() && ls[k].serial != serial {
        lemma_ls_index(ls, serial, k + 1);
    }
}

proof fn lemma_dx_process(a: OggDemuxer, b: OggDemuxer, pv: PageView, st0: Seq<Stream>, q0: Seq<Packet>, mdl: DxModel)
    requires
        dx_holds(a, st0, q0, mdl),
        OggDemuxer::page_post(a, b, pv),
    ensures
        dx_holds(b, st0, q0, dx_process(mdl, pv)),
{
    let n = dx_process(mdl, pv);
    lemma_ls_index(mdl.ls, pv.serial_number, 0);
    match ls_index(mdl.ls, pv.serial_number, 0) {
        None => {},
        Some(i) => {
            let l = mdl.ls[i as int];
            let st = page_step(l.m, pv);
            assert(ls_specs(a.logicals())[i as int] == ls_spec(a.logicals()[i as int]));
            assert(ls_specs(b.logicals()) =~= n.ls) by {
                assert forall|j: int| 0 <= j < n.ls.len() implies ls_specs(b.logicals())[j] == n.ls[j] by {
                    if j != i {
                        assert(b.logicals()[j] == a.logicals()[j]);
                    }
                }
            }
            let qa = a.queue().len() as int;
            let tb = time_base_in(mdl.tbs, l.stream_index);
            assert(time_base_of(a.stream_list(), l.stream_index) == tb);
            let added = tag_out(st.1, l.stream_index, tb);
            assert forall|k: int| 0 <= k < n.out.len() implies emitted_is(#[trigger] b.queue()[q0.len() + k], n.out[k].0, n.out[k].1, n.out[k].2, n.out[k].3) by {
                if k < mdl.out.len() {
                    assert(b.queue()[q0.len() + k] == b.queue().subrange(0, qa)[q0.len() + k]);
                } else {
                    let kk = k - mdl.out.len();
                    assert(b.queue()[q0.len() + k] == b.queue().subrange(qa, b.queue().len() as int)[kk]);
                    assert(emitted_is(b.queue().subrange(qa, b.queue().len() as int)[kk], l.stream_index, st.1[kk].0, st.1[kk].1, tb));
                }
            }
            assert(b.queue().subrange(0, q0.len() as int) =~= b.queue().subrange(0, qa).subrange(0, q0.len() as int));
        },
    }
}

proof fn lemma_dx_bos(a: OggDemuxer, b: OggDemuxer, pv: PageView, st0: Seq<Stream>, q0: Seq<Packet>, mdl: DxModel)
    requires
        dx_holds(a, st0, q0, mdl),
        OggDemuxer::bos_post(a, b, pv),
    ensures
        dx_holds(b, st0, q0, dx_bos(mdl, pv)),
{
    if page_packets(pv).len() > 0 {
        let n = dx_bos(mdl, pv);
        let na = a.stream_list().len() as int;
        assert(ls_specs(b.logicals()) =~= n.ls) by {
            assert forall|j: int| 0 <= j < n.ls.len() implies ls_specs(b.logicals())[j] == n.ls[j] by {
                if j < mdl.ls.len() {
                    assert(b.logicals()[j] == b.logicals().subrange(0, a.logicals().len() as int)[j]);
                }
            }
        }
        assert(tbs_of(b.stream_list()) =~= n.tbs) by {
            assert forall|j: int| 0 <= j < n.tbs.len() implies tbs_of(b.stream_list())[j] == n.tbs[j] by {
                if j < na {
                    assert(b.stream_list()[j] == b.stream_list().subrange(0, na)[j]);
                }
            }
        }
        assert(b.stream_list().subrange(0, st0.len() as int) =~= b.stream_list().subrange(0, na).subrange(0, st0.len() as int));
        assert forall|j: int| 0 <= j < n.added.len() implies {
            &&& ogg_stream_is(#[trigger] b.stream_list()[st0.len() + j], n.added[j].0, n.added[j].1, (st0.len() + j) as usize)
            &&& b.stream_list()[st0.len() + j].duration == -1
        } by {
            if j < mdl.added.len() {
                assert(b.stream_list()[st0.len() + j] == b.stream_list().subrange(0, na)[st0.len() + j]);
                assert(a.stream_list()[st0.len() + j] == b.stream_list().subrange(0, na)[st0.len() + j]);
            }
        }
    }
}

proof fn lemma_holds_pop(a: OggDemuxer, b: OggDemuxer, st0: Seq<Stream>, mdl: DxModel)
    requires
        dx_holds(a, st0, seq![], mdl),
        mdl.out.len() > 0,
        b.queue() == a.queue().remove(0),
        b.stream_list() == a.stream_list(),
        b.logicals() == a.logicals(),
    ensures
        emitted_is(a.queue()[0], mdl.out[0].0, mdl.out[0].1, mdl.out[0].2, mdl.out[0].3),
        dx_holds(b, st0, seq![], DxModel { out: mdl.out.drop_first(), ..mdl }),
{
    let q0: Seq<Packet> = seq![];
    assert(emitted_is(a.queue()[q0.len() + 0int], mdl.out[0].0, mdl.out[0].1, mdl.out[0].2, mdl.out[0].3));
    let m = DxModel { out: mdl.out.drop_first(), ..mdl };
    assert(b.queue().subrange(0, 0) =~= q0);
    assert forall|k: int| 0 <= k < m.out.len() implies emitted_is(#[trigger] b.queue()[q0.len() + k], m.out[k].0, m.out[k].1, m.out[k].2, m.out[k].3) by {
        assert(b.queue()[k] == a.queue()[k + 1]);
        assert(emitted_is(a.queue()[q0.len() + (k + 1)], mdl.out[k + 1].0, mdl.out[k + 1].1, mdl.out[k + 1].2, mdl.out[k + 1].3));
    }
}

impl OggDemuxer {
    /// What reading a packet does: a queued packet is handed out first;
    /// after the end of the input, `Eof`; otherwise pages are taken in from
    /// the cursor until one completes a packet, which is handed out, or the
    /// data ends, which gives `Eof` and marks the end.
    pub open spec fn read_post(old_self: Self, new_self: Self, old_io: IoContext, new_io: IoContext, r: TaoResult<Packet>) -> bool {
        &&& new_io.contents() == old_io.contents()
        &&& if old_self.queue().len() > 0 {
            &&& r == Ok::<Packet, TaoError>(old_self.queue()[0])
            &&& new_self.queue() == old_self.queue().drop_first()
            &&& new_self.stream_list() == old_self.stream_list()
            &&& new_self.logicals() == old_self.logicals()
            &&& new_self.at_eof() == old_self.at_eof()
            &&& new_io == old_io
        } else if old_self.at_eof() {
            &&& r is Err && r->Err_0 is Eof
            &&& new_self == old_self
            &&& new_io == old_io
        } else {
            let (mdl, c, found) = dx_pump(dx_start(old_self), old_io.contents(), old_io.cursor() as int);
            &&& new_io.cursor() == c
            &&& if found {
                &&& r matches Ok(pk) && emitted_is(pk, mdl.out[0].0, mdl.out[0].1, mdl.out[0].2, mdl.out[0].3)
                &&& dx_holds(new_self, old_self.stream_list(), seq![], DxModel { out: mdl.out.drop_first(), ..mdl })
                &&& !new_self.at_eof()
            } else {
                &&& r is Err && r->Err_0 is Eof
                &&& dx_holds(new_self, old_self.stream_list(), seq![], mdl)
                &&& new_self.at_eof()
            }
        }
    }

    /// Reads the next packet.
    fn read_ogg_packet(&mut self, io: &mut IoContext) -> (r: TaoResult<Packet>)
        requires
            io_in_range(*old(io)),
        ensures
            Self::read_post(*old(self), *final(self), *old(io), *final(io), r),
    {
        if self.packet_queue.len() > 0 {
            return Ok(self.packet_queue.remove(0));
        }
        if self.eof {
            return Err(TaoError::Eof);
        }
        let ghost d = io.contents();
        let ghost st0 = self.streams@;
        let ghost target = dx_pump(dx_start(*self), d, io.cursor() as int);
        let ghost mut mdl = dx_start(*self);
        proof {
            assert(self.packet_queue@.subrange(0, 0) =~= Seq::<Packet>::empty());
            assert(self.streams@.subrange(0, st0.len() as int) =~= st0);
        }
        loop
            invariant
                io_in_range(*io),
                io.contents() == d,
                d == old(io).contents(),
                st0 == old(self).streams@,
                old(self).packet_queue@.len() == 0,
                !old(self).eof,
                !self.eof,
                target == dx_pump(dx_start(*old(self)), d, old(io).cursor() as int),
                dx_pump(mdl, d, io.cursor() as int) == target,
                mdl.out.len() == 0,
                dx_holds(*self, st0, seq![], mdl),
                io.cursor() <= d.len() || io.cursor() == old(io).cursor(),
            decreases d.len() + 1 - (if io.cursor() <= d.len() { io.cursor() as int } else { d.len() + 1int }),
        {
            let ghost p = io.cursor() as int;
            proof {
                lemma_next_page_finds(d, p);
            }
            match sync_to_page(io) {
                Ok(page) => {
                    let ghost q = ogg_next_page(d, p).0->Some_0;
                    proof {
                        lemma_whole_page_ok(d, q);
                    }
                    let ghost pv = page.pv();
                    let ghost before = *self;
                    if page.is_bos() && self.find_logical_stream(page.serial_number).is_none() {
                        self.handle_bos_page(&page);
                        proof {
                            lemma_dx_bos(before, *self, pv, st0, seq![], mdl);
                        }
                    } else {
                        self.process_page(page);
                        proof {
                            lemma_dx_process(before, *self, pv, st0, seq![], mdl);
                        }
                    }
                    proof {
                        assert(pv == page_view_at(d, q));
                        mdl = dx_read_page(mdl, pv);
                        if mdl.out.len() > 0 {
                            assert(target == (mdl, io.cursor() as int, true));
                        } else {
                            assert(target == dx_pump(mdl, d, io.cursor() as int));
                        }
                    }
                    if self.packet_queue.len() > 0 {
                        let ghost b4 = *self;
                        let pk = self.packet_queue.remove(0);
                        proof {
                            lemma_holds_pop(b4, *self, st0, mdl);
                        }
                        return Ok(pk);
                    }
                },
                Err(_) => {
                    assert(target == (mdl, io.cursor() as int, false));
                    self.eof = true;
                    return Err(TaoError::Eof);
                },
            }
        }
    }
}

/// The larger of two optional granules.
pub open spec fn max_opt(a: Option<i64>, b: Option<i64>) -> Option<i64> {
    match (a, b) {
        (Some(x), Some(y)) => Some(if x >= y { x } else { y }),
        (Some(x), None) => Some(x),
        (None, y) => y,
    }
}

/// Largest non-negative granule position among the pages of serial number
/// `serial` from `p` to the end of the data.
pub open spec fn max_granule_from(d: Seq<u8>, p: int, serial: u32) -> Option<i64>
    decreases d.len() - p,
{
    let (f, c) = ogg_next_page(d, p);
    match f {
        None => None,
        Some(q) => {
            let pv = page_view_at(d, q);
            let here = if pv.serial_number == serial && pv.granule_position >= 0 { Some(pv.granule_position) } else { None };
            if c > p && c <= d.len() {
                max_opt(here, max_granule_from(d, c, serial))
            } else {
                here
            }
        },
    }
}

/// Duration of stream `i` after the logical streams `k..` feeding it have
/// set theirs: each one that has pages with a granule position sets the
/// largest of them.
pub open spec fn dur_after(ls: Seq<LsSpec>, d: Seq<u8>, p: int, i: usize, k: int, cur: i64) -> i64
    decreases ls.len() - k,
{
    if k < 0 || k >= ls.len() {
        cur
    } else {
        let next = if ls[k].stream_index == i && max_granule_from(d, p, ls[k].serial) is Some {
            max_granule_from(d, p, ls[k].serial)->Some_0
        } else {
            cur
        };
        dur_after(ls, d, p, i, k + 1, next)
    }
}

/// The granule of serial number `s` in the table `t`.
pub open spec fn granule_entry(t: Seq<(u32, i64)>, s: u32) -> Option<i64>
    decreases t.len(),
{
    if t.len() == 0 {
        None
    } else if t[0].0 == s {
        Some(t[0].1)
    } else {
        granule_entry(t.drop_first(), s)
    }
}

proof fn lemma_granule_entry_set(t: Seq<(u32, i64)>, j: int, s: u32, g: i64)
    requires
        0 <= j < t.len(),
        t[j].0 == s,
        forall|i: int| 0 <= i < j ==> t[i].0 != s,
    ensures
        forall|x: u32| x != s ==> granule_entry(#[trigger] t.update(j, (s, g)), x) == granule_entry(t, x),
        granule_entry(t.update(j, (s, g)), s) == Some(g),
    decreases j,
{
    let u = t.update(j, (s, g));
    if j == 0 {
        assert(u.drop_first() =~= t.drop_first());
        assert forall|x: u32| x != s implies granule_entry(u, x) == granule_entry(t, x) by {}
    } else {
        assert(u.drop_first() =~= t.drop_first().update(j - 1, (s, g)));
        assert(t[0].0 != s);
        assert forall|i: int| 0 <= i < j - 1 implies t.drop_first()[i].0 != s by {
            assert(t.drop_first()[i] == t[i + 1]);
        }
        lemma_granule_entry_set(t.drop_first(), j - 1, s, g);
        assert forall|x: u32| x != s implies granule_entry(u, x) == granule_entry(t, x) by {
            assert(u[0] == t[0]);
            if t[0].0 != x {
                assert(granule_entry(u.drop_first(), x) == granule_entry(t.drop_first(), x));
            }
        }
    }
}

proof fn lemma_granule_entry_push(t: Seq<(u32, i64)>, s: u32, g: i64)
    requires
        granule_entry(t, s) is None,
    ensures
        forall|x: u32| x != s ==> granule_entry(#[trigger] t.push((s, g)), x) == granule_entry(t, x),
        granule_entry(t.push((s, g)), s) == Some(g),
    decreases t.len(),
{
    let u = t.push((s, g));
    if t.len() == 0 {
        assert(u.drop_first() =~= t);
        assert forall|x: u32| x != s implies granule_entry(u, x) == granule_entry(t, x) by {}
    } else {
        assert(u.drop_first() =~= t.drop_first().push((s, g)));
        lemma_granule_entry_push(t.drop_first(), s, g);
        assert forall|x: u32| x != s implies granule_entry(u, x) == granule_entry(t, x) by {
            assert(u[0] == t[0]);
            if t[0].0 != x {
                assert(granule_entry(t.drop_first().push((s, g)), x) == granule_entry(t.drop_first(), x));
            }
        }
    }
}

/// The first index from `k` whose serial number is `s`: the table entry.
proof fn lemma_granule_entry_at(t: Seq<(u32, i64)>, j: int, s: u32)
    requires
        0 <= j < t.len(),
        t[j].0 == s,
        forall|i: int| 0 <= i < j ==> t[i].0 != s,
    ensures
        granule_entry(t, s) == Some(t[j].1),
    decreases j,
{
    if j > 0 {
        assert forall|i: int| 0 <= i < j - 1 implies t.drop_first()[i].0 != s by {
            assert(t.drop_first()[i] == t[i + 1]);
        }
        lemma_granule_entry_at(t.drop_first(), j - 1, s);
    }
}

proof fn lemma_granule_entry_none(t: Seq<(u32, i64)>, s: u32)
    requires
        forall|i: int| 0 <= i < t.len() ==> t[i].0 != s,
    ensures
        granule_entry(t, s) is None,
    decreases t.len(),
{
    if t.len() > 0 {
        assert forall|i: int| 0 <= i < t.len() - 1 implies t.drop_first()[i].0 != s by {
            assert(t.drop_first()[i] == t[i + 1]);
        }
        lemma_granule_entry_none(t.drop_first(), s);
    }
}

proof fn lemma_max_granule_nonneg(d: Seq<u8>, p: int, serial: u32)
    ensures
        max_granule_from(d, p, serial) matches Some(g) ==> g >= 0,
    decreases d.len() - p,
{
    let (f, c) = ogg_next_page(d, p);
    if f is Some && c > p && c <= d.len() {
        lemma_max_granule_nonneg(d, c, serial);
    }
}

/// Whether stream `s2` is `s1` but for its duration.
pub open spec fn same_but_duration(s1: Stream, s2: Stream) -> bool {
    s2 == Stream { duration: s2.duration, ..s1 }
}

impl OggDemuxer {
    /// What estimating durations does: the cursor comes back where it was;
    /// each stream keeps all but its duration, which each logical stream
    /// feeding it, in order, sets to the largest granule position of its
    /// pages from the cursor on, when it has one.
    pub open spec fn estimate_post(old_self: Self, new_self: Self, old_io: IoContext, new_io: IoContext) -> bool {
        &&& new_io.contents() == old_io.contents()
        &&& new_io.cursor() == old_io.cursor()
        &&& new_self.logicals() == old_self.logicals()
        &&& new_self.queue() == old_self.queue()
        &&& new_self.at_eof() == old_self.at_eof()
        &&& new_self.stream_list().len() == old_self.stream_list().len()
        &&& forall|i: int| 0 <= i < old_self.stream_list().len() ==> {
            &&& same_but_duration(old_self.stream_list()[i], #[trigger] new_self.stream_list()[i])
            &&& new_self.stream_list()[i].duration == dur_after(
                ls_specs(old_self.logicals()),
                old_io.contents(),
                old_io.cursor() as int,
                i as usize,
                0,
                old_self.stream_list()[i].duration,
            )
        }
    }

    /// Sets each stream's duration to the largest granule position of its
    /// pages after the cursor, then puts the cursor back.
    fn estimate_duration(&mut self, io: &mut IoContext)
        requires
            io_in_range(*old(io)),
        ensures
            Self::estimate_post(*old(self), *final(self), *old(io), *final(io)),
    {
        let ghost d = io.contents();
        let ghost p0 = io.cursor() as int;
        let ghost ls = ls_specs(self.logical_streams@);
        let resume_pos = match io.position() {
            Ok(v) => v,
            Err(_) => {
                return;
            },
        };
        let mut maxes: Vec<(u32, i64)> = Vec::new();
        loop
            invariant_except_break
                forall|x: u32| #[trigger] ls_index(ls, x, 0) is Some ==> max_opt(granule_entry(maxes@, x), max_granule_from(d, io.cursor() as int, x)) == max_granule_from(d, p0, x),
            invariant
                io_in_range(*io),
                io.contents() == d,
                d == old(io).contents(),
                p0 == old(io).cursor(),
                resume_pos == p0,
                *self == *old(self),
                ls == ls_specs(self.logical_streams@),
                io.cursor() <= d.len() || io.cursor() == p0,
                forall|x: u32| #[trigger] ls_index(ls, x, 0) is None ==> granule_entry(maxes@, x) is None,
            ensures
                io_in_range(*io),
                io.contents() == d,
                io.cursor() <= d.len() || io.cursor() == p0,
                *self == *old(self),
                forall|x: u32| #[trigger] ls_index(ls, x, 0) is Some ==> granule_entry(maxes@, x) == max_granule_from(d, p0, x),
            decreases d.len() + 1 - (if io.cursor() <= d.len() { io.cursor() as int } else { d.len() + 1int }),
        {
            let ghost p = io.cursor() as int;
            proof {
                lemma_next_page_finds(d, p);
                lemma_next_page_cursor(d, p);
            }
            match sync_to_page(io) {
                Ok(page) => {
                    let ghost q = ogg_next_page(d, p).0->Some_0;
                    assert(page.pv() == page_view_at(d, q));
                    let ghost old_maxes = maxes@;
                    let g = page.granule_position;
                    let serial = page.serial_number;
                    if g >= 0 && self.find_logical_stream(serial).is_some() {
                        let mut k: usize = 0;
                        let mut found = false;
                        while k < maxes.len() && !found
                            invariant
                                k <= maxes@.len(),
                                maxes@ == old_maxes,
                                found ==> k < maxes@.len() && maxes@[k as int].0 == serial,
                                forall|i: int| 0 <= i < k ==> maxes@[i].0 != serial,
                            decreases maxes.len() - k + (if found { 0int } else { 1int }),
                        {
                            if maxes[k].0 == serial {
                                found = true;
                            } else {
                                k = k + 1;
                            }
                        }
                        if found {
                            proof {
                                lemma_granule_entry_at(maxes@, k as int, serial);
                            }
                            let e = maxes[k].1;
                            if g > e {
                                maxes.set(k, (serial, g));
                                proof {
                                    lemma_granule_entry_set(old_maxes, k as int, serial, g);
                                }
                            }
                        } else {
                            proof {
                                lemma_granule_entry_none(maxes@, serial);
                            }
                            maxes.push((serial, g));
                            proof {
                                lemma_granule_entry_push(old_maxes, serial, g);
                            }
                        }
                    }
                    proof {
                        assert forall|x: u32| #[trigger] ls_index(ls, x, 0) is Some implies max_opt(granule_entry(maxes@, x), max_granule_from(d, io.cursor() as int, x)) == max_granule_from(d, p0, x) by {
                            assert(max_granule_from(d, p, x) == max_opt(
                                (if serial == x && g >= 0 { Some(g) } else { None }),
                                max_granule_from(d, io.cursor() as int, x),
                            ));
                        }
                    }
                },
                Err(_) => {
                    proof {
                        assert forall|x: u32| #[trigger] ls_index(ls, x, 0) is Some implies granule_entry(maxes@, x) == max_granule_from(d, p0, x) by {
                            assert(max_granule_from(d, p, x) is None);
                        }
                    }
                    break;
                },
            }
        }
        let _ = io.seek(SeekFrom::Start(resume_pos));
        let ghost st0 = self.streams@;
        let mut j: usize = 0;
        while j < self.logical_streams.len()
            invariant
                j <= self.logical_streams@.len(),
                ls == ls_specs(self.logical_streams@),
                self.logical_streams@ == old(self).logical_streams@,
                self.packet_queue@ == old(self).packet_queue@,
                self.eof == old(self).eof,
                st0 == old(self).streams@,
                self.streams@.len() == st0.len(),
                forall|x: u32| #[trigger] ls_index(ls, x, 0) is Some ==> granule_entry(maxes@, x) == max_granule_from(d, p0, x),
                forall|i: int| 0 <= i < st0.len() ==> {
                    &&& same_but_duration(st0[i], #[trigger] self.streams@[i])
                    &&& dur_after(ls, d, p0, i as usize, j as int, self.streams@[i].duration) == dur_after(ls, d, p0, i as usize, 0, st0[i].duration)
                },
            decreases self.logical_streams.len() - j,
        {
            let serial = self.logical_streams[j].serial_number;
            let idx = self.logical_streams[j].stream_index;
            assert(ls[j as int] == ls_spec(self.logical_streams@[j as int]));
            proof {
                lemma_ls_index(ls, serial, 0);
                lemma_ls_index_hit(ls, serial, j as int);
                lemma_max_granule_nonneg(d, p0, serial);
            }
            let mut k: usize = 0;
            let mut hit: Option<i64> = None;
            while k < maxes.len() && hit.is_none()
                invariant
                    k <= maxes@.len(),
                    hit is Some ==> hit == granule_entry(maxes@, serial),
                    forall|i: int| 0 <= i < k ==> maxes@[i].0 != serial,
                decreases maxes.len() - k + (if hit is Some { 0int } else { 1int }),
            {
                if maxes[k].0 == serial {
                    proof {
                        lemma_granule_entry_at(maxes@, k as int, serial);
                    }
                    hit = Some(maxes[k].1);
                } else {
                    k = k + 1;
                }
            }
            proof {
                if hit is None {
                    lemma_granule_entry_none(maxes@, serial);
                }
            }
            let ghost before = self.streams@;
            match hit {
                Some(g) => {
                    if g >= 0 && idx < self.streams.len() {
                        let mut st = self.streams.remove(idx);
                        st.duration = g;
                        self.streams.insert(idx, st);
                        assert(self.streams@ =~= before.update(idx as int, st));
                    }
                },
                None => {},
            }
            proof {
                assert forall|i: int| 0 <= i < st0.len() implies {
                    &&& same_but_duration(st0[i], #[trigger] self.streams@[i])
                    &&& dur_after(ls, d, p0, i as usize, j + 1, self.streams@[i].duration) == dur_after(ls, d, p0, i as usize, 0, st0[i].duration)
                } by {
                    assert(same_but_duration(st0[i], before[i]));
                    assert(dur_after(ls, d, p0, i as usize, j as int, before[i].duration) == dur_after(ls, d, p0, i as usize, j + 1, self.streams@[i].duration));
                }
            }
            j = j + 1;
        }
    }
}

proof fn lemma_ls_index_hit(ls: Seq<LsSpec>, serial: u32, j: int)
    requires
        0 <= j < ls.len(),
        ls[j].serial == serial,
    ensures
        ls_index(ls, serial, 0) is Some,
{
    lemma_ls_index_from(ls, serial, 0, j);
}

proof fn lemma_ls_index_from(ls: Seq<LsSpec>, serial: u32, k: int, j: int)
    requires
        0 <= k <= j < ls.len(),
        ls[j].serial == serial,
    ensures
        ls_index(ls, serial, k) is Some,
    decreases j - k,
{
    if ls[k].serial != serial {
        lemma_ls_index_from(ls, serial, k + 1, j);
    }
}

/// Pages taken in by `open` from `p`: start-of-stream pages add their
/// streams, and the first other page goes to its logical stream and ends
/// the header. The model, where the cursor ends, and whether such a page
/// came before the data ended.
pub open spec fn dx_open_scan(mdl: DxModel, d: Seq<u8>, p: int) -> (DxModel, int, bool)
    decreases d.len() - p,
{
    let (f, c) = ogg_next_page(d, p);
    match f {
        None => (mdl, c, false),
        Some(q) => {
            let pv = page_view_at(d, q);
            if page_bos(pv) {
                if c > p && c <= d.len() {
                    dx_open_scan(dx_bos(mdl, pv), d, c)
                } else {
                    (dx_bos(mdl, pv), c, false)
                }
            } else {
                (dx_process(mdl, pv), c, true)
            }
        },
    }
}

/// Whether the demuxer `s` is in the state `mdl` gives, with the durations
/// its streams have after an estimate over the pages from `p` in `d`.
pub open spec fn dx_holds_est(s: OggDemuxer, st0: Seq<Stream>, q0: Seq<Packet>, mdl: DxModel, d: Seq<u8>, p: int) -> bool {
    &&& ls_specs(s.logicals()) == mdl.ls
    &&& tbs_of(s.stream_list()) == mdl.tbs
    &&& s.stream_list().len() == st0.len() + mdl.added.len()
    &&& forall|i: int| 0 <= i < st0.len() ==> {
        &&& same_but_duration(st0[i], #[trigger] s.stream_list()[i])
        &&& s.stream_list()[i].duration == dur_after(mdl.ls, d, p, i as usize, 0, st0[i].duration)
    }
    &&& forall|j: int| 0 <= j < mdl.added.len() ==> {
        &&& ogg_stream_is(#[trigger] s.stream_list()[st0.len() + j], mdl.added[j].0, mdl.added[j].1, (st0.len() + j) as usize)
        &&& s.stream_list()[st0.len() + j].duration == dur_after(mdl.ls, d, p, (st0.len() + j) as usize, 0, -1i64)
    }
    &&& s.queue().len() == q0.len() + mdl.out.len()
    &&& s.queue().subrange(0, q0.len() as int) == q0
    &&& forall|k: int| 0 <= k < mdl.out.len() ==> emitted_is(#[trigger] s.queue()[q0.len() + k], mdl.out[k].0, mdl.out[k].1, mdl.out[k].2, mdl.out[k].3)
}

proof fn lemma_holds_est(a: OggDemuxer, b: OggDemuxer, st0: Seq<Stream>, q0: Seq<Packet>, mdl: DxModel, io: IoContext, io2: IoContext)
    requires
        dx_holds(a, st0, q0, mdl),
        OggDemuxer::estimate_post(a, b, io, io2),
    ensures
        dx_holds_est(b, st0, q0, mdl, io.contents(), io.cursor() as int),
{
    assert(tbs_of(b.stream_list()) =~= tbs_of(a.stream_list())) by {
        assert forall|i: int| 0 <= i < a.stream_list().len() implies tbs_of(b.stream_list())[i] == tbs_of(a.stream_list())[i] by {
            assert(same_but_duration(a.stream_list()[i], b.stream_list()[i]));
        }
    }
    assert forall|i: int| 0 <= i < st0.len() implies {
        &&& same_but_duration(st0[i], #[trigger] b.stream_list()[i])
        &&& b.stream_list()[i].duration == dur_after(mdl.ls, io.contents(), io.cursor() as int, i as usize, 0, st0[i].duration)
    } by {
        assert(a.stream_list()[i] == a.stream_list().subrange(0, st0.len() as int)[i]);
        assert(same_but_duration(a.stream_list()[i], b.stream_list()[i]));
    }
    assert forall|j: int| 0 <= j < mdl.added.len() implies {
        &&& ogg_stream_is(#[trigger] b.stream_list()[st0.len() + j], mdl.added[j].0, mdl.added[j].1, (st0.len() + j) as usize)
        &&& b.stream_list()[st0.len() + j].duration == dur_after(mdl.ls, io.contents(), io.cursor() as int, (st0.len() + j) as usize, 0, -1i64)
    } by {
        assert(ogg_stream_is(a.stream_list()[st0.len() + j], mdl.added[j].0, mdl.added[j].1, (st0.len() + j) as usize));
        assert(same_but_duration(a.stream_list()[st0.len() + j], b.stream_list()[st0.len() + j]));
    }
}

/// First logical stream from `k` that feeds stream `idx`.
pub open spec fn ls_for_stream(ls: Seq<LsSpec>, idx: usize, k: int) -> Option<int>
    decreases ls.len() - k,
{
    if k < 0 || k >= ls.len() {
        None
    } else if ls[k].stream_index == idx {
        Some(k)
    } else {
        ls_for_stream(ls, idx, k + 1)
    }
}

/// Scanning pages from `p` for a seek on serial number `serial`: the first
/// page that does not start a stream, the last page of that serial with
/// data and a granule position from `min_g` up to `target`, and the first
/// such page past `target`, where the scan stops.
pub open spec fn seek_scan(d: Seq<u8>, p: int, serial: u32, min_g: i64, target: i64, first_non_bos: Option<int>, best: Option<int>) -> (Option<int>, Option<int>, Option<int>)
    decreases d.len() - p,
{
    let (f, c) = ogg_next_page(d, p);
    match f {
        None => (first_non_bos, best, None),
        Some(q) => {
            let pv = page_view_at(d, q);
            let fnb = if !page_bos(pv) && first_non_bos is None { Some(q) } else { first_non_bos };
            if pv.serial_number == serial && pv.data.len() > 0 && pv.granule_position >= min_g && pv.granule_position > target {
                (fnb, best, Some(q))
            } else {
                let best2 = if pv.serial_number == serial && pv.data.len() > 0 && pv.granule_position >= min_g { Some(q) } else { best };
                if c > p && c <= d.len() {
                    seek_scan(d, c, serial, min_g, target, fnb, best2)
                } else {
                    (fnb, best2, None)
                }
            }
        },
    }
}

/// The first of three optional offsets that is present, or 0.
pub open spec fn first_of(a: Option<int>, b: Option<int>, c: Option<int>) -> int {
    match a {
        Some(x) => x,
        None => match b {
            Some(x) => x,
            None => match c {
                Some(x) => x,
                None => 0,
            },
        },
    }
}

/// The reassembly state after a seek.
pub open spec fn reset_ls() -> LsModel {
    LsModel { partial: seq![], discarding: false, last_granule: NOPTS_VALUE, last_seq: None, ended: false }
}

impl OggDemuxer {
    /// What `open` does: start-of-stream pages add their streams until
    /// another page, which goes to its logical stream; then durations are
    /// estimated from the pages after it and the cursor put back. `Eof`
    /// when the data ends first; `InvalidData` when no stream was found.
    pub open spec fn open_post(old_self: Self, new_self: Self, old_io: IoContext, new_io: IoContext, r: TaoResult<()>) -> bool {
        let d = old_io.contents();
        let (mdl, c, ok) = dx_open_scan(dx_start(old_self), d, old_io.cursor() as int);
        &&& new_io.contents() == d
        &&& new_io.cursor() == c
        &&& new_self.at_eof() == old_self.at_eof()
        &&& if !ok {
            &&& r is Err && r->Err_0 is Eof
            &&& dx_holds(new_self, old_self.stream_list(), old_self.queue(), mdl)
        } else if mdl.tbs.len() == 0 {
            &&& r is Err && r->Err_0 is InvalidData
            &&& dx_holds(new_self, old_self.stream_list(), old_self.queue(), mdl)
        } else {
            &&& r is Ok
            &&& dx_holds_est(new_self, old_self.stream_list(), old_self.queue(), mdl, d, c)
        }
    }

    /// Reads the start-of-stream pages and the first page after them.
    fn open_ogg(&mut self, io: &mut IoContext) -> (r: TaoResult<()>)
        requires
            io_in_range(*old(io)),
        ensures
            Self::open_post(*old(self), *final(self), *old(io), *final(io), r),
    {
        let ghost d = io.contents();
        let ghost st0 = self.streams@;
        let ghost q0 = self.packet_queue@;
        let ghost target = dx_open_scan(dx_start(*self), d, io.cursor() as int);
        let ghost mut mdl = dx_start(*self);
        proof {
            assert(self.streams@.subrange(0, st0.len() as int) =~= st0);
            assert(self.packet_queue@.subrange(0, q0.len() as int) =~= q0);
        }
        loop
            invariant_except_break
                dx_open_scan(mdl, d, io.cursor() as int) == target,
            invariant
                io_in_range(*io),
                io.contents() == d,
                d == old(io).contents(),
                st0 == old(self).streams@,
                q0 == old(self).packet_queue@,
                self.eof == old(self).eof,
                target == dx_open_scan(dx_start(*old(self)), d, old(io).cursor() as int),
                dx_holds(*self, st0, q0, mdl),
                io.cursor() <= d.len() || io.cursor() == old(io).cursor(),
            ensures
                io_in_range(*io),
                io.contents() == d,
                target == (mdl, io.cursor() as int, true),
                dx_holds(*self, st0, q0, mdl),
                self.eof == old(self).eof,
            decreases d.len() + 1 - (if io.cursor() <= d.len() { io.cursor() as int } else { d.len() + 1int }),
        {
            let ghost p = io.cursor() as int;
            proof {
                lemma_next_page_finds(d, p);
                lemma_next_page_cursor(d, p);
            }
            let page = match sync_to_page(io) {
                Ok(pg) => pg,
                Err(_) => {
                    assert(target == (mdl, io.cursor() as int, false));
                    return Err(TaoError::Eof);
                },
            };
            let ghost q = ogg_next_page(d, p).0->Some_0;
            proof {
                lemma_whole_page_ok(d, q);
            }
            let ghost pv = page.pv();
            assert(pv == page_view_at(d, q));
            let ghost before = *self;
            if page.is_bos() {
                self.handle_bos_page(&page);
                proof {
                    lemma_dx_bos(before, *self, pv, st0, q0, mdl);
                    mdl = dx_bos(mdl, pv);
                }
            } else {
                self.process_page(page);
                proof {
                    lemma_dx_process(before, *self, pv, st0, q0, mdl);
                    mdl = dx_process(mdl, pv);
                }
                break;
            }
        }
        if self.streams.len() == 0 {
            return Err(invalid_data("no stream found in the Ogg data"));
        }
        let ghost mid = *self;
        let ghost mid_io = *io;
        self.estimate_duration(io);
        proof {
            lemma_holds_est(mid, *self, st0, q0, mdl, mid_io, *io);
        }
        Ok(())
    }

    /// Clears what reading had gathered: the queue, the end mark and each
    /// logical stream's reassembly state.
    fn reset_runtime_state(&mut self)
        ensures
            final(self).stream_list() == old(self).stream_list(),
            final(self).queue().len() == 0,
            !final(self).at_eof(),
            final(self).logicals().len() == old(self).logicals().len(),
            forall|i: int| 0 <= i < old(self).logicals().len() ==> {
                &&& (#[trigger] final(self).logicals()[i]).serial_number == old(self).logicals()[i].serial_number
                &&& final(self).logicals()[i].stream_index == old(self).logicals()[i].stream_index
                &&& final(self).logicals()[i].codec_id == old(self).logicals()[i].codec_id
                &&& final(self).logicals()[i].model() == reset_ls()
            },
    {
        self.packet_queue.clear();
        self.eof = false;
        let mut i: usize = 0;
        while i < self.logical_streams.len()
            invariant
                i <= self.logical_streams@.len(),
                self.logical_streams@.len() == old(self).logical_streams@.len(),
                self.streams@ == old(self).streams@,
                self.packet_queue@.len() == 0,
                !self.eof,
                forall|k: int| 0 <= k < self.logical_streams@.len() ==> {
                    &&& (#[trigger] self.logical_streams@[k]).serial_number == old(self).logical_streams@[k].serial_number
                    &&& self.logical_streams@[k].stream_index == old(self).logical_streams@[k].stream_index
                    &&& self.logical_streams@[k].codec_id == old(self).logical_streams@[k].codec_id
                },
                forall|k: int| 0 <= k < i ==> (#[trigger] self.logical_streams@[k]).model() == reset_ls(),
            decreases self.logical_streams.len() - i,
        {
            let serial_number = self.logical_streams[i].serial_number;
            let stream_index = self.logical_streams[i].stream_index;
            let codec_id = self.logical_streams[i].codec_id;
            self.logical_streams.set(i, OggLogicalStream {
                serial_number,
                stream_index,
                codec_id,
                partial_packet: Vec::new(),
                discarding_orphan_continued: false,
                last_granule: NOPTS_VALUE,
                last_page_sequence: None,
                ended: false,
            });
            assert(self.logical_streams@[i as int].partial_packet@ =~= Seq::<u8>::empty());
            i = i + 1;
        }
    }
}

impl OggDemuxer {
    /// The first logical stream feeding stream `idx`.
    fn logical_for_stream(&self, idx: usize) -> (r: Option<usize>)
        ensures
            ls_for_stream(ls_specs(self.logicals()), idx, 0) == (match r {
                Some(i) => Some(i as int),
                None => None::<int>,
            }),
            r matches Some(i) ==> i < self.logicals().len() && self.logicals()[i as int].stream_index == idx,
    {
        let mut i: usize = 0;
        while i < self.logical_streams.len()
            invariant
                i <= self.logical_streams@.len(),
                ls_for_stream(ls_specs(self.logical_streams@), idx, 0) == ls_for_stream(ls_specs(self.logical_streams@), idx, i as int),
            decreases self.logical_streams.len() - i,
        {
            assert(ls_specs(self.logical_streams@)[i as int] == ls_spec(self.logical_streams@[i as int]));
            if self.logical_streams[i].stream_index == idx {
                return Some(i);
            }
            i = i + 1;
        }
        None
    }

    /// What seeking does: `InvalidData` for a stream that does not exist
    /// or that no logical stream feeds, `NotImplemented` for a byte seek;
    /// otherwise the pages are scanned from the start and the cursor put
    /// at the last page of the stream at or before the target (backward)
    /// or the first one after it (forward), falling back on the other, then
    /// on the first page after the headers, then on 0; the reading state is
    /// cleared. Vorbis and Opus pages with granule 0 (headers) are passed
    /// over.
    pub open spec fn seek_post(
        old_self: Self,
        new_self: Self,
        old_io: IoContext,
        new_io: IoContext,
        stream_index: usize,
        timestamp: i64,
        flags: SeekFlags,
        r: TaoResult<()>,
    ) -> bool {
        let ls = ls_specs(old_self.logicals());
        &&& new_io.contents() == old_io.contents()
        &&& if stream_index >= old_self.stream_list().len() {
            r is Err && r->Err_0 is InvalidData && new_self == old_self && new_io == old_io
        } else if flags.byte {
            r is Err && r->Err_0 is NotImplemented && new_self == old_self && new_io == old_io
        } else if ls_for_stream(ls, stream_index, 0) is None {
            r is Err && r->Err_0 is InvalidData && new_self == old_self && new_io == old_io
        } else {
            let serial = ls[ls_for_stream(ls, stream_index, 0)->Some_0].serial;
            let c = old_self.stream_list()[stream_index as int].codec_id;
            let min_g: i64 = if c == CodecId::Vorbis || c == CodecId::Opus { 1 } else { 0 };
            let target: i64 = if timestamp < 0 { 0 } else { timestamp };
            let (fnb, best, after) = seek_scan(old_io.contents(), 0, serial, min_g, target, None, None);
            &&& r is Ok
            &&& new_io.cursor() == (if flags.backward { first_of(best, after, fnb) } else { first_of(after, best, fnb) })
            &&& new_self.stream_list() == old_self.stream_list()
            &&& new_self.queue().len() == 0
            &&& !new_self.at_eof()
            &&& new_self.logicals().len() == old_self.logicals().len()
            &&& forall|i: int| 0 <= i < old_self.logicals().len() ==> {
                &&& (#[trigger] new_self.logicals()[i]).serial_number == old_self.logicals()[i].serial_number
                &&& new_self.logicals()[i].stream_index == old_self.logicals()[i].stream_index
                &&& new_self.logicals()[i].codec_id == old_self.logicals()[i].codec_id
                &&& new_self.logicals()[i].model() == reset_ls()
            }
        }
    }

    /// Moves to the page of stream `stream_index` nearest `timestamp`.
    fn seek_ogg(&mut self, io: &mut IoContext, stream_index: usize, timestamp: i64, flags: SeekFlags) -> (r: TaoResult<()>)
        requires
            io_in_range(*old(io)),
        ensures
            Self::seek_post(*old(self), *final(self), *old(io), *final(io), stream_index, timestamp, flags, r),
    {
        if stream_index >= self.streams.len() {
            return Err(invalid_data("Ogg seek: no such stream"));
        }
        if flags.byte {
            return Err(not_implemented("Ogg byte seek is not implemented"));
        }
        if !io.is_seekable() {
            return Err(unsupported("seek needs a seekable input"));
        }
        let li = match self.logical_for_stream(stream_index) {
            Some(i) => i,
            None => {
                return Err(invalid_data("Ogg seek: no logical stream for the stream"));
            },
        };
        let target_serial = self.logical_streams[li].serial_number;
        assert(ls_specs(self.logical_streams@)[li as int] == ls_spec(self.logical_streams@[li as int]));
        let codec_id = self.streams[stream_index].codec_id;
        let min_granule: i64 = match codec_id {
            CodecId::Vorbis | CodecId::Opus => 1,
            _ => 0,
        };
        let target_granule: i64 = if timestamp < 0 { 0 } else { timestamp };
        let ghost d = io.contents();
        let _ = io.seek(SeekFrom::Start(0));
        let mut first_non_bos: Option<u64> = None;
        let mut best_before: Option<u64> = None;
        let mut first_after: Option<u64> = None;
        let ghost goal = seek_scan(d, 0, target_serial, min_granule, target_granule, None, None);
        loop
            invariant_except_break
                first_after is None,
                seek_scan(d, io.cursor() as int, target_serial, min_granule, target_granule,
                    match first_non_bos { Some(v) => Some(v as int), None => None::<int> },
                    match best_before { Some(v) => Some(v as int), None => None::<int> },
                ) == goal,
            invariant
                io_in_range(*io),
                io.contents() == d,
                d == old(io).contents(),
                io.cursor() <= d.len(),
                *self == *old(self),
                goal == seek_scan(d, 0, target_serial, min_granule, target_granule, None, None),
                first_non_bos matches Some(v) ==> v <= d.len(),
                best_before matches Some(v) ==> v <= d.len(),
                first_after matches Some(v) ==> v <= d.len(),
            ensures
                io_in_range(*io),
                io.contents() == d,
                *self == *old(self),
                first_non_bos matches Some(v) ==> v <= d.len(),
                best_before matches Some(v) ==> v <= d.len(),
                first_after matches Some(v) ==> v <= d.len(),
                goal == (
                    match first_non_bos { Some(v) => Some(v as int), None => None::<int> },
                    match best_before { Some(v) => Some(v as int), None => None::<int> },
                    match first_after { Some(v) => Some(v as int), None => None::<int> },
                ),
            decreases d.len() - io.cursor(),
        {
            let ghost p = io.cursor() as int;
            proof {
                lemma_next_page_finds(d, p);
                lemma_next_page_cursor(d, p);
            }
            match sync_to_page(io) {
                Ok(page) => {
                    let ghost q = ogg_next_page(d, p).0->Some_0;
                    proof {
                        lemma_whole_page_ok(d, q);
                    }
                    assert(page.pv() == page_view_at(d, q));
                    let page_size = 27 + page.segment_table.len() as u64 + page.data.len() as u64;
                    let page_end = match io.position() {
                        Ok(v) => v,
                        Err(_) => 0,
                    };
                    let page_start = if page_end >= page_size { page_end - page_size } else { 0 };
                    assert(page_start == q);
                    if !page.is_bos() && first_non_bos.is_none() {
                        first_non_bos = Some(page_start);
                    }
                    if page.serial_number == target_serial && page.data.len() > 0 && page.granule_position >= min_granule {
                        if page.granule_position <= target_granule {
                            best_before = Some(page_start);
                        } else {
                            first_after = Some(page_start);
                            break;
                        }
                    }
                },
                Err(_) => {
                    break;
                },
            }
        }
        let offset = if flags.backward {
            match best_before {
                Some(v) => v,
                None => match first_after {
                    Some(v) => v,
                    None => match first_non_bos {
                        Some(v) => v,
                        None => 0,
                    },
                },
            }
        } else {
            match first_after {
                Some(v) => v,
                None => match best_before {
                    Some(v) => v,
                    None => match first_non_bos {
                        Some(v) => v,
                        None => 0,
                    },
                },
            }
        };
        proof {
            let fnb = match first_non_bos { Some(v) => Some(v as int), None => None::<int> };
            let bb = match best_before { Some(v) => Some(v as int), None => None::<int> };
            let fa = match first_after { Some(v) => Some(v as int), None => None::<int> };
            assert(offset as int == (if flags.backward { first_of(bb, fa, fnb) } else { first_of(fa, bb, fnb) }));
            assert(ls_for_stream(ls_specs(old(self).logicals()), stream_index, 0)->Some_0 == li as int);
        }
        let _ = io.seek(SeekFrom::Start(offset));
        assert(io.cursor() == offset as int);
        self.reset_runtime_state();
        Ok(())
    }
}

impl OggDemuxer {
    /// A boxed demuxer, for a registry.
    pub fn create() -> (r: TaoResult<Box<dyn Demuxer>>)
        ensures
            r matches Ok(d) && d.format_kind() == FormatId::Ogg && d.stream_seq().len() == 0,
    {
        Ok(Box::new(OggDemuxer::new()))
    }
}

impl Demuxer for OggDemuxer {
    open spec fn open_admits(&self, io: IoContext) -> bool {
        true
    }

    fn open_admitted(&self, io: &IoContext) -> (b: bool)
        ensures
            b == self.open_admits(*io),
    {
        true
    }

    open spec fn format_kind(&self) -> FormatId {
        FormatId::Ogg
    }

    open spec fn stream_seq(&self) -> Seq<Stream> {
        self.stream_list()
    }

    open spec fn seek_admits(&self, stream_index: usize, timestamp: i64) -> bool {
        true
    }

    open spec fn read_admits(&self) -> bool {
        true
    }

    fn read_admitted(&self) -> (b: bool)
        ensures
            b == self.read_admits(),
    {
        true
    }

    fn seek_admitted(&self, stream_index: usize, timestamp: i64) -> (b: bool)
        ensures
            b == self.seek_admits(stream_index, timestamp),
    {
        true
    }


    fn format_id(&self) -> (r: FormatId)
        ensures
            r == FormatId::Ogg,
    {
        FormatId::Ogg
    }

    fn name(&self) -> (r: &'static str)
        ensures
            r@ == "ogg"@,
    {
        "ogg"
    }

    fn open(&mut self, io: &mut IoContext) -> (r: TaoResult<()>)
        ensures
            Self::open_post(*old(self), *final(self), *old(io), *final(io), r),
    {
        self.open_ogg(io)
    }

    fn streams(&self) -> (r: &[Stream])
        ensures
            r@ == self.stream_list(),
    {
        self.streams.as_slice()
    }

    fn read_packet(&mut self, io: &mut IoContext) -> (r: TaoResult<Packet>)
        ensures
            Self::read_post(*old(self), *final(self), *old(io), *final(io), r),
    {
        self.read_ogg_packet(io)
    }

    fn seek(&mut self, io: &mut IoContext, stream_index: usize, timestamp: i64, flags: SeekFlags) -> (r: TaoResult<()>)
        ensures
            Self::seek_post(*old(self), *final(self), *old(io), *final(io), stream_index, timestamp, flags, r),
    {
        self.seek_ogg(io, stream_index, timestamp, flags)
    }

    fn metadata(&self) -> (r: &[(String, String)])
        ensures
            r@.len() == 0,
    {
        let empty: &[(String, String)] = &[];
        empty
    }
}

/// A packet that a page leaves open (its last lacing value is 255) is
/// completed by the next page of the stream, which continues it: taking a
/// page of one 255-byte segment holds its bytes and emits nothing, and the
/// following continued page, whose first packet ends, emits the two pieces
/// joined, with that page's granule position.
pub proof fn law_packet_spans_pages(m0: LsModel, a: PageView, b: PageView)
    requires
        !m0.ended,
        m0.partial.len() == 0,
        !m0.discarding,
        m0.last_seq matches Some(prev) ==> a.page_sequence == next_seq(prev),
        !page_bos(a),
        !page_eos(a),
        !page_continued(a),
        a.segs == seq![255u8],
        a.data.len() == 255,
        !page_bos(b),
        page_continued(b),
        b.page_sequence == next_seq(a.page_sequence),
        b.segs.len() == 1,
        b.segs[0] < 255,
        b.data.len() == b.segs[0],
    ensures
        page_step(m0, a).1.len() == 0,
        page_step(m0, a).0.partial == a.data,
        page_step(page_step(m0, a).0, b).1 == seq![(normalized_granule(b.granule_position), a.data + b.data)],
{
    assert(lacing_packets(a.segs, 1, 0, 255) == seq![(0usize, 255usize, false)]);
    assert(page_packets(a) == seq![(0usize, 255usize, false)]);
    assert(a.data.subrange(0, 255) =~= a.data);
    assert(last_complete(page_packets(a), 0) == -1);
    assert(last_complete(page_packets(a), 1) == -1);
    let m1 = page_step(m0, a).0;
    let ha = LsModel { last_seq: Some(a.page_sequence), ..m0 };
    assert(packet_step(ha, a, 0, false, -1).0 == LsModel { partial: a.data, ..ha });
    assert(take_packets(LsModel { partial: a.data, ..ha }, a, 1, false, -1) == (LsModel { partial: a.data, ..ha }, Seq::<(i64, Seq<u8>)>::empty()));
    assert(lacing_packets(b.segs, 1, b.segs[0] as nat, 0) =~= Seq::<(usize, usize, bool)>::empty());
    assert(page_packets(b) == seq![(0usize, b.segs[0] as usize, true)]);
    assert(b.data.subrange(0, b.segs[0] as int) =~= b.data);
    assert(last_complete(page_packets(b), 1) == 0);
    assert(m1.partial == a.data && m1.last_seq == Some(a.page_sequence) && !m1.ended && !m1.discarding);
    assert(!page_restarts(b));
    assert(!page_breaks(m1, b));
    let m2 = LsModel { last_seq: Some(b.page_sequence), ..m1 };
    assert(normalized_granule(normalized_granule(b.granule_position)) == normalized_granule(b.granule_position));
    let st = packet_step(m2, b, 0, false, 0);
    assert(page_chunk(b, 0) == b.data);
    assert(st.1 == seq![(normalized_granule(b.granule_position), a.data + b.data)]);
    assert(take_packets(st.0, b, 1, false, 0).1 =~= Seq::<(i64, Seq<u8>)>::empty());
    assert(take_packets(m2, b, 0, false, 0).1 =~= st.1);
}

} // verus!

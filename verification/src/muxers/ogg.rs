//! Ogg writer: each stream opens with a page flagged as its first (BOS)
//! that carries its codec setup, each packet becomes one page of its own,
//! and the trailer closes every stream with an empty page flagged as its
//! last (EOS).
//!
//! A page is "OggS", version 0, the header flags, the granule position
//! (8 bytes), the serial number, the page sequence number, the CRC (4
//! bytes each, all little-endian), the number of lacing values, the
//! lacing values, and the body.

use vstd::prelude::*;
use vstd::string::StringSliceAdditionalSpecFns;
use crate::crc::{crc32_msb, crc32_msb_first, lemma_crc32_concat};
use crate::demuxers::mp3::le64_bytes;
use crate::demuxers::ogg::{PageStatus, PageView, granule_of, ogg_sync, page_body_at, page_crc_input, page_end, page_nseg,
    page_segs, page_status, page_view_at, seg_total};
use crate::endian::{le32, le32_bytes, lemma_bytes_read_back, push_all, push_le32, u32_to_le};
use crate::error::{ErrorKind, TaoError, TaoResult, invalid_argument, stream_not_found};
use crate::format_id::FormatId;
use crate::io::{IoContext, written, lemma_written_concat};
use crate::media::{Packet, Stream, StreamParams, codec_name, lemma_codec_name_short};
use crate::muxer::Muxer;
use crate::packet_data::bytes_as_slice;

verus! {

/// The lacing values of a body of `n` bytes on one page: 255 for each
/// whole 255 byte segment, then the rest (0 when `n` is a multiple of 255).
pub open spec fn lacing(n: nat) -> Seq<u8>
    decreases n,
{
    if n < 255 {
        seq![n as u8]
    } else {
        seq![255u8] + lacing((n - 255) as nat)
    }
}

/// A body of `n` bytes has `n / 255 + 1` lacing values, which add up to `n`.
pub proof fn lemma_lacing_len(n: nat)
    ensures
        lacing(n).len() == n / 255 + 1,
    decreases n,
{
    if n >= 255 {
        lemma_lacing_len((n - 255) as nat);
    }
}

/// The header of a page with CRC field `crc` and a body of `n` bytes.
pub open spec fn page_head(header_type: u8, granule: i64, serial: u32, sequence: u32, crc: u32, n: nat) -> Seq<u8> {
    seq![0x4Fu8, 0x67, 0x67, 0x53, 0u8, header_type] + le64_bytes(granule as u64) + le32_bytes(serial)
        + le32_bytes(sequence) + le32_bytes(crc) + seq![lacing(n).len() as u8] + lacing(n)
}

/// The CRC of a page: over its header with the CRC field zeroed, then its
/// body.
pub open spec fn page_crc(header_type: u8, granule: i64, serial: u32, sequence: u32, body: Seq<u8>) -> u32 {
    crc32_msb(0, 0x04C1_1DB7, page_head(header_type, granule, serial, sequence, 0, body.len()) + body)
}

/// The bytes of a page holding `body`.
pub open spec fn page_bytes(header_type: u8, granule: i64, serial: u32, sequence: u32, body: Seq<u8>) -> Seq<u8> {
    page_head(header_type, granule, serial, sequence, page_crc(header_type, granule, serial, sequence, body), body.len())
        + body
}

/// The Ogg CRC (generator 0x04C11DB7, register from 0) of a header
/// followed by a body.
pub fn ogg_crc(header: &[u8], data: &[u8]) -> (r: u32)
    ensures
        r == crc32_msb(0, 0x04C1_1DB7, header@ + data@),
{
    let c = crc32_msb_first(0, 0x04C1_1DB7, header);
    proof {
        lemma_crc32_concat(0, 0x04C1_1DB7, header@, data@);
    }
    crc32_msb_first(c, 0x04C1_1DB7, data)
}

/// The lacing values of a body of `n` bytes.
fn lacing_values(n: usize) -> (r: Vec<u8>)
    ensures
        r@ == lacing(n as nat),
{
    let mut segments: Vec<u8> = Vec::new();
    let mut remaining = n;
    while remaining >= 255
        invariant
            segments@ + lacing(remaining as nat) == lacing(n as nat),
        decreases remaining,
    {
        let ghost before = segments@;
        segments.push(255u8);
        proof {
            assert(lacing(remaining as nat) == seq![255u8] + lacing((remaining - 255) as nat));
            assert(before + lacing(remaining as nat) =~= segments@ + lacing((remaining - 255) as nat));
        }
        remaining = remaining - 255;
    }
    let ghost before = segments@;
    segments.push(remaining as u8);
    assert(segments@ =~= before + lacing(remaining as nat));
    segments
}

/// Writes one page holding `data`.
fn write_page(io: &mut IoContext, header_type: u8, granule: i64, serial: u32, sequence: u32, data: &[u8]) -> (r:
    TaoResult<()>)
    requires
        old(io).cursor() + data@.len() + data@.len() / 255 + 28 <= usize::MAX,
        old(io).contents().len() + data@.len() + data@.len() / 255 + 28 <= usize::MAX,
    ensures
        r is Ok,
        final(io).contents() == written(
            old(io).contents(),
            old(io).cursor(),
            page_bytes(header_type, granule, serial, sequence, data@),
        ),
        final(io).cursor() == old(io).cursor() + page_bytes(header_type, granule, serial, sequence, data@).len(),
{
    let segments = lacing_values(data.len());
    proof {
        lemma_lacing_len(data@.len());
    }
    let num_segments = segments.len() as u8;
    let mut header: Vec<u8> = Vec::new();
    header.push(0x4F);
    header.push(0x67);
    header.push(0x67);
    header.push(0x53);
    header.push(0);
    header.push(header_type);
    let g = granule as u64;
    push_le32(&mut header, (g % 0x1_0000_0000) as u32);
    push_le32(&mut header, (g / 0x1_0000_0000) as u32);
    push_le32(&mut header, serial);
    push_le32(&mut header, sequence);
    push_le32(&mut header, 0);
    header.push(num_segments);
    push_all(&mut header, segments.as_slice());
    let ghost zeroed = header@;
    assert(zeroed =~= page_head(header_type, granule, serial, sequence, 0, data@.len()));
    let crc = ogg_crc(header.as_slice(), data);
    let c = u32_to_le(crc);
    header.set(22, c[0]);
    header.set(23, c[1]);
    header.set(24, c[2]);
    header.set(25, c[3]);
    assert(header@ =~= page_head(header_type, granule, serial, sequence, crc, data@.len()));
    let ghost d0 = io.contents();
    let ghost c0 = io.cursor();
    io.write_all(header.as_slice())?;
    io.write_all(data)?;
    proof {
        lemma_written_concat(d0, c0, header@, data@);
    }
    Ok(())
}

/// Page bytes for a body of `n` bytes: 27 header bytes, the lacing values
/// and the body.
pub proof fn lemma_page_len(header_type: u8, granule: i64, serial: u32, sequence: u32, body: Seq<u8>)
    ensures
        page_bytes(header_type, granule, serial, sequence, body).len() == 28 + body.len() / 255 + body.len(),
{
    lemma_lacing_len(body.len());
}

/// The serial number given to stream `i`.
pub open spec fn stream_serial(i: int) -> u32 {
    ((i + 1) * 0x12345) as u32
}

/// The codec setup written on a stream's first page when it has no codec
/// private data: for audio the length of the codec's name, the name, the
/// sample rate and the channel count; for video the length of the name,
/// the name, the width and the height; otherwise a length 4 and "data".
pub open spec fn codec_setup(s: Stream) -> Seq<u8> {
    let name = codec_name(s.codec_id).spec_bytes();
    match s.params {
        StreamParams::Audio(a) => seq![name.len() as u8] + name + le32_bytes(a.sample_rate) + seq![
            a.channel_layout.channels as u8,
        ],
        StreamParams::Video(v) => seq![name.len() as u8] + name + le32_bytes(v.width) + le32_bytes(v.height),
        _ => seq![4u8, 0x64, 0x61, 0x74, 0x61],
    }
}

/// The body of a stream's first page: its codec private data, or the codec
/// setup when it has none.
pub open spec fn bos_body(s: Stream) -> Seq<u8> {
    if s.extra_data@.len() > 0 {
        s.extra_data@
    } else {
        codec_setup(s)
    }
}

/// The first pages of the first `k` streams, in stream order: flags BOS,
/// granule 0, the stream's serial number, page sequence 0.
pub open spec fn bos_pages(streams: Seq<Stream>, k: nat) -> Seq<u8>
    decreases k,
{
    if k == 0 {
        seq![]
    } else {
        bos_pages(streams, (k - 1) as nat) + page_bytes(
            2,
            0,
            stream_serial(k - 1),
            0,
            bos_body(streams[k - 1]),
        )
    }
}

/// The codec setup bytes of a stream.
fn codec_setup_bytes(stream: &Stream) -> (r: Vec<u8>)
    ensures
        r@ == codec_setup(*stream),
        r@.len() <= 19,
{
    proof {
        lemma_codec_name_short(stream.codec_id);
    }
    let mut hdr: Vec<u8> = Vec::new();
    match &stream.params {
        StreamParams::Audio(audio) => {
            let name = stream.codec_id.name().as_bytes();
            hdr.push(name.len() as u8);
            push_all(&mut hdr, name);
            push_le32(&mut hdr, audio.sample_rate);
            hdr.push(audio.channel_layout.channels as u8);
        },
        StreamParams::Video(video) => {
            let name = stream.codec_id.name().as_bytes();
            hdr.push(name.len() as u8);
            push_all(&mut hdr, name);
            push_le32(&mut hdr, video.width);
            push_le32(&mut hdr, video.height);
        },
        _ => {
            hdr.push(4);
            hdr.push(0x64);
            hdr.push(0x61);
            hdr.push(0x74);
            hdr.push(0x61);
        },
    }
    assert(hdr@ =~= codec_setup(*stream));
    hdr
}

/// Writer of Ogg files.
pub struct OggMuxer {
    serial_numbers: Vec<u32>,
    page_sequences: Vec<u32>,
    granule_positions: Vec<i64>,
    header_written: bool,
}

impl OggMuxer {
    /// Serial number of each stream.
    pub closed spec fn serials(&self) -> Seq<u32> {
        self.serial_numbers@
    }

    /// Sequence number of each stream's next page.
    pub closed spec fn sequences(&self) -> Seq<u32> {
        self.page_sequences@
    }

    /// Granule position of each stream's last page.
    pub closed spec fn granules(&self) -> Seq<i64> {
        self.granule_positions@
    }

    /// Whether the header was written.
    pub closed spec fn started(&self) -> bool {
        self.header_written
    }

    /// One serial number, sequence number and granule position per stream.
    pub open spec fn wf(&self) -> bool {
        self.sequences().len() == self.serials().len() && self.granules().len() == self.serials().len()
    }

    /// The granule position a packet's page gets: its presentation time
    /// plus its duration, or, with no presentation time, the stream's last
    /// granule position plus the duration.
    pub open spec fn next_granule(&self, p: Packet) -> int {
        if p.pts >= 0 {
            p.pts + p.duration
        } else {
            self.granules()[p.stream_index as int] + p.duration
        }
    }

    /// The last pages of the first `k` streams, in stream order: flags EOS,
    /// each stream's granule position and next sequence number, no body.
    pub open spec fn eos_pages(&self, k: nat) -> Seq<u8>
        decreases k,
    {
        if k == 0 {
            seq![]
        } else {
            self.eos_pages((k - 1) as nat) + page_bytes(
                4,
                self.granules()[k - 1],
                self.serials()[k - 1],
                self.sequences()[k - 1],
                seq![],
            )
        }
    }

    /// A writer before its header.
    pub fn new() -> (r: Self)
        ensures
            r.wf(),
            r.serials().len() == 0,
            !r.started(),
    {
        OggMuxer {
            serial_numbers: Vec::new(),
            page_sequences: Vec::new(),
            granule_positions: Vec::new(),
            header_written: false,
        }
    }

    /// A boxed writer, for a registry.
    pub fn create() -> (r: TaoResult<Box<dyn Muxer>>)
        ensures
            r matches Ok(m) && m.format_kind() == FormatId::Ogg,
    {
        Ok(Box::new(OggMuxer::new()))
    }
}

impl Muxer for OggMuxer {
    open spec fn format_kind(&self) -> FormatId {
        FormatId::Ogg
    }

    /// Serial numbers stay within 32 bits, and codec private data within
    /// 4 GiB.
    open spec fn header_admits(&self, streams: Seq<Stream>) -> bool {
        &&& streams.len() <= 57600
        &&& forall|j: int| 0 <= j < streams.len() ==> #[trigger] streams[j].extra_data@.len() <= 0x1_0000_0000
    }

    /// The page sequence number and the granule position do not overflow.
    open spec fn packet_admits(&self, packet: Packet) -> bool {
        &&& self.wf()
        &&& packet.payload().len() <= 0x1_0000_0000_0000
        &&& self.started() && packet.stream_index < self.serials().len() ==> {
            &&& self.sequences()[packet.stream_index as int] < u32::MAX
            &&& i64::MIN <= self.next_granule(packet) <= i64::MAX
        }
    }

    open spec fn trailer_admits(&self) -> bool {
        self.wf() && self.serials().len() <= 0x1_0000_0000
    }

    fn format_id(&self) -> (r: FormatId)
        ensures
            r == FormatId::Ogg,
    {
        FormatId::Ogg
    }

    fn name(&self) -> (r: &'static str)
        ensures
            r@ == "ogg"@,
    {
        "ogg"
    }

    /// Numbers the streams and writes each one's first page.
    fn write_header(&mut self, io: &mut IoContext, streams: &[Stream]) -> (r: TaoResult<()>)
        ensures
            streams@.len() == 0 ==> (r matches Err(e) && e.kind() == ErrorKind::InvalidArgument && *final(self)
                == *old(self) && *final(io) == *old(io)),
            streams@.len() > 0 ==> {
                &&& r is Ok
                &&& final(self).started()
                &&& final(self).serials() == Seq::new(streams@.len(), |j: int| stream_serial(j))
                &&& final(self).sequences() == Seq::new(streams@.len(), |j: int| 1u32)
                &&& final(self).granules() == Seq::new(streams@.len(), |j: int| 0i64)
                &&& final(io).contents() == written(
                    old(io).contents(),
                    old(io).cursor(),
                    bos_pages(streams@, streams@.len()),
                )
                &&& final(io).cursor() == old(io).cursor() + bos_pages(streams@, streams@.len()).len()
            },
    {
        if streams.len() == 0 {
            return Err(invalid_argument("Ogg: no input streams"));
        }
        self.serial_numbers = Vec::new();
        self.page_sequences = Vec::new();
        self.granule_positions = Vec::new();
        let ghost d0 = io.contents();
        let ghost c0 = io.cursor();
        let mut i: usize = 0;
        while i < streams.len()
            invariant
                i <= streams@.len() <= 57600,
                forall|j: int| 0 <= j < streams@.len() ==> #[trigger] streams@[j].extra_data@.len() <= 0x1_0000_0000,
                self.serial_numbers@ == Seq::new(i as nat, |j: int| stream_serial(j)),
                self.page_sequences@ == Seq::new(i as nat, |j: int| 1u32),
                self.granule_positions@ == Seq::new(i as nat, |j: int| 0i64),
                self.header_written == old(self).header_written,
                io.contents() == written(d0, c0, bos_pages(streams@, i as nat)),
                io.cursor() == c0 + bos_pages(streams@, i as nat).len(),
                io.contents().len() <= d0.len() + bos_pages(streams@, i as nat).len(),
                bos_pages(streams@, i as nat).len() <= i * 0x1_0200_0000,
                d0.len() <= 0x1_0000_0000_0000,
                c0 <= 0x1_0000_0000_0000,
                0x40_0000_0000_0000 <= usize::MAX,
            decreases streams.len() - i,
        {
            let stream = &streams[i];
            assert((i + 1) * 0x12345 <= 0xFFFF_FFFF) by (nonlinear_arith)
                requires
                    i < 57600,
            ;
            assert(i * 0x1_0200_0000 <= 57600 * 0x1_0200_0000) by (nonlinear_arith)
                requires
                    i < 57600,
            ;
            let serial = (i as u32 + 1) * 0x12345;
            let ghost prev = bos_pages(streams@, i as nat);
            let ghost body = bos_body(streams@[i as int]);
            proof {
                lemma_page_len(2, 0, serial, 0, body);
                assert(streams@[i as int].extra_data@.len() <= 0x1_0000_0000);
                lemma_codec_name_short(streams@[i as int].codec_id);
                assert(body.len() <= 0x1_0000_0000);
                assert(body.len() / 255 <= 0x0101_0102) by (nonlinear_arith)
                    requires
                        body.len() <= 0x1_0000_0000,
                ;
            }
            if stream.extra_data.len() > 0 {
                write_page(io, 0x02, 0, serial, 0, stream.extra_data.as_slice())?;
            } else {
                let setup = codec_setup_bytes(stream);
                write_page(io, 0x02, 0, serial, 0, setup.as_slice())?;
            }
            proof {
                lemma_written_concat(d0, c0, prev, page_bytes(2, 0, serial, 0, body));
                assert(bos_pages(streams@, (i + 1) as nat) == prev + page_bytes(2, 0, serial, 0, body));
            }
            self.serial_numbers.push(serial);
            self.page_sequences.push(1);
            self.granule_positions.push(0);
            i = i + 1;
            assert(self.serial_numbers@ =~= Seq::new(i as nat, |j: int| stream_serial(j)));
            assert(self.page_sequences@ =~= Seq::new(i as nat, |j: int| 1u32));
            assert(self.granule_positions@ =~= Seq::new(i as nat, |j: int| 0i64));
        }
        self.header_written = true;
        Ok(())
    }

    /// Writes the packet as one page of its stream, after the stream's
    /// granule position moves on.
    fn write_packet(&mut self, io: &mut IoContext, packet: &Packet) -> (r: TaoResult<()>)
        ensures
            !old(self).started() ==> (r matches Err(e) && e.kind() == ErrorKind::Codec && *final(self) == *old(
                self) && *final(io) == *old(io)),
            old(self).started() && packet.stream_index >= old(self).serials().len() ==> (r matches Err(e)
                && e.kind() == ErrorKind::StreamNotFound && *final(self) == *old(self) && *final(io) == *old(io)),
            old(self).started() && packet.stream_index < old(self).serials().len() ==> {
                let k = packet.stream_index as int;
                let g = old(self).next_granule(*packet) as i64;
                &&& r is Ok
                &&& final(self).wf()
                &&& final(self).started()
                &&& final(self).serials() == old(self).serials()
                &&& final(self).sequences() == old(self).sequences().update(k, (old(self).sequences()[k] + 1) as u32)
                &&& final(self).granules() == old(self).granules().update(k, g)
                &&& final(io).contents() == written(
                    old(io).contents(),
                    old(io).cursor(),
                    page_bytes(0, g, old(self).serials()[k], old(self).sequences()[k], packet.payload()),
                )
                &&& final(io).cursor() == old(io).cursor() + page_bytes(
                    0,
                    g,
                    old(self).serials()[k],
                    old(self).sequences()[k],
                    packet.payload(),
                ).len()
            },
    {
        if !self.header_written {
            return Err(TaoError::Codec(String::from_str("Ogg: header not written")));
        }
        let idx = packet.stream_index;
        if idx >= self.serial_numbers.len() {
            return Err(stream_not_found("Ogg: no such stream"));
        }
        let serial = self.serial_numbers[idx];
        let page_seq = self.page_sequences[idx];
        let granule = if packet.pts >= 0 {
            packet.pts + packet.duration
        } else {
            self.granule_positions[idx] + packet.duration
        };
        self.granule_positions.set(idx, granule);
        let data = bytes_as_slice(&packet.data);
        proof {
            lemma_page_len(0, granule, serial, page_seq, data@);
        }
        write_page(io, 0x00, granule, serial, page_seq, data)?;
        self.page_sequences.set(idx, page_seq + 1);
        Ok(())
    }

    /// Writes each stream's last page, in stream order.
    fn write_trailer(&mut self, io: &mut IoContext) -> (r: TaoResult<()>)
        ensures
            r is Ok,
            *final(self) == *old(self),
            final(io).contents() == written(
                old(io).contents(),
                old(io).cursor(),
                old(self).eos_pages(old(self).serials().len()),
            ),
            final(io).cursor() == old(io).cursor() + old(self).eos_pages(old(self).serials().len()).len(),
    {
        let ghost d0 = io.contents();
        let ghost c0 = io.cursor();
        let empty: Vec<u8> = Vec::new();
        let mut i: usize = 0;
        while i < self.serial_numbers.len()
            invariant
                i <= self.serials().len() <= 0x1_0000_0000,
                self.wf(),
                empty@.len() == 0,
                io.contents() == written(d0, c0, self.eos_pages(i as nat)),
                io.cursor() == c0 + self.eos_pages(i as nat).len(),
                io.contents().len() <= d0.len() + self.eos_pages(i as nat).len(),
                self.eos_pages(i as nat).len() == i * 28,
                d0.len() <= 0x1_0000_0000_0000,
                c0 <= 0x1_0000_0000_0000,
                0x40_0000_0000_0000 <= usize::MAX,
            decreases self.serials().len() - i,
        {
            let ghost prev = self.eos_pages(i as nat);
            let serial = self.serial_numbers[i];
            let page_seq = self.page_sequences[i];
            let granule = self.granule_positions[i];
            proof {
                lemma_page_len(4, granule, serial, page_seq, empty@);
                assert(empty@ =~= seq![]);
            }
            write_page(io, 0x04, granule, serial, page_seq, empty.as_slice())?;
            proof {
                lemma_written_concat(d0, c0, prev, page_bytes(4, granule, serial, page_seq, seq![]));
            }
            i = i + 1;
        }
        Ok(())
    }
}

/// The body sizes that lacing values add up to add up over a
/// concatenation.
proof fn lemma_seg_total_concat(a: Seq<u8>, b: Seq<u8>)
    ensures
        seg_total(a + b) == seg_total(a) + seg_total(b),
    decreases b.len(),
{
    if b.len() == 0 {
        assert(a + b =~= a);
    } else {
        lemma_seg_total_concat(a, b.drop_last());
        assert((a + b).drop_last() =~= a + b.drop_last());
    }
}

/// The lacing values of a body add up to its size.
proof fn lemma_lacing_total(n: nat)
    ensures
        seg_total(lacing(n)) == n,
    decreases n,
{
    let v: nat = if n < 255 { n } else { 255 };
    let one = seq![v as u8];
    assert(one.drop_last() =~= Seq::<u8>::empty());
    assert(seg_total(Seq::<u8>::empty()) == 0);
    assert(one.last() as nat == v);
    assert(seg_total(one) == v);
    if n >= 255 {
        lemma_lacing_total((n - 255) as nat);
        lemma_seg_total_concat(one, lacing((n - 255) as nat));
    }
}

/// The two halves of a granule position, read back, give it again.
proof fn lemma_granule_halves(g: i64)
    ensures
        granule_of(((g as u64) % 0x1_0000_0000) as u32, ((g as u64) / 0x1_0000_0000) as u32) == g,
{
    let u = g as u64;
    let lo = (u % 0x1_0000_0000) as u32;
    let hi = (u / 0x1_0000_0000) as u32;
    assert(hi < 0x8000_0000 ==> (hi * 0x1_0000_0000 + lo) as i64 == g) by (bit_vector)
        requires
            u == g as u64,
            lo == (u % 0x1_0000_0000) as u32,
            hi == (u / 0x1_0000_0000) as u32,
    ;
    assert(hi >= 0x8000_0000 ==> (hi * 0x1_0000_0000 + lo - 0x1_0000_0000_0000_0000) as i64 == g) by (bit_vector)
        requires
            u == g as u64,
            lo == (u % 0x1_0000_0000) as u32,
            hi == (u / 0x1_0000_0000) as u32,
    ;
}

/// A page as written reads back, through the page parser of the reader,
/// as a whole page with a matching CRC that ends where the bytes end and
/// carries the flags, granule position, serial number, sequence number and
/// body it was written with, when the body fits one page's 255 lacing
/// values.
pub proof fn law_page_reads_back(header_type: u8, granule: i64, serial: u32, sequence: u32, body: Seq<u8>)
    requires
        body.len() < 255 * 255,
    ensures
        ({
            let d = page_bytes(header_type, granule, serial, sequence, body);
            &&& page_status(d, 0) == PageStatus::Whole
            &&& page_end(d, 0) == d.len()
            &&& page_view_at(d, 0) == (PageView {
                header_type,
                granule_position: granule,
                serial_number: serial,
                page_sequence: sequence,
                segs: lacing(body.len()),
                data: body,
            })
        }),
{
    let n = body.len();
    let lac = lacing(n);
    lemma_lacing_len(n);
    lemma_lacing_total(n);
    let crc = page_crc(header_type, granule, serial, sequence, body);
    let h0 = page_head(header_type, granule, serial, sequence, 0, n);
    let h = page_head(header_type, granule, serial, sequence, crc, n);
    let d = h + body;
    assert(d == page_bytes(header_type, granule, serial, sequence, body));
    assert(lac.len() <= 255);
    assert(h.len() == 27 + lac.len());
    assert(d[26] == lac.len() as u8);
    assert(page_nseg(d, 0) == lac.len());
    assert(page_segs(d, 0) =~= lac);
    assert(page_end(d, 0) == d.len());
    assert(d.subrange(0, 4) =~= ogg_sync());
    assert(page_crc_input(d, 0) =~= h0 + body);
    let u = granule as u64;
    let lo = (u % 0x1_0000_0000) as u32;
    let hi = (u / 0x1_0000_0000) as u32;
    lemma_bytes_read_back(0, lo);
    lemma_bytes_read_back(0, hi);
    lemma_bytes_read_back(0, serial);
    lemma_bytes_read_back(0, sequence);
    lemma_bytes_read_back(0, crc);
    lemma_granule_halves(granule);
    assert(le32(d[6], d[7], d[8], d[9]) == lo);
    assert(le32(d[10], d[11], d[12], d[13]) == hi);
    assert(le32(d[14], d[15], d[16], d[17]) == serial);
    assert(le32(d[18], d[19], d[20], d[21]) == sequence);
    assert(le32(d[22], d[23], d[24], d[25]) == crc);
    assert(d.subrange(page_body_at(d, 0), page_end(d, 0)) =~= body);
}

} // verus!

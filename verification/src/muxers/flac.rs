//! FLAC writer: the `fLaC` marker, a STREAMINFO block, then the frames as
//! they come; the trailer rewrites STREAMINFO with the frame sizes and the
//! sample count seen.

use vstd::prelude::*;
use crate::error::{ErrorKind, TaoError, TaoResult, invalid_argument};
use crate::format_id::FormatId;
use crate::io::{IoContext, SeekFrom, written};
use crate::endian::{be16, be24, be32};
use crate::media::{CodecId, Packet, SampleFormat, Stream, StreamParams};
use crate::muxer::{Muxer, out_in_range};
use crate::packet_data::bytes_as_slice;
use crate::demuxers::flac::{MetadataBlockType, StreamInfo, block_type_of, flac_blocks, flac_marker, flac_open_outcome, stream_info_is};

verus! {

/// The 34 STREAMINFO bytes for block size `bs`, frame sizes, sample rate,
/// channels, bits per sample and total samples; the MD5 left zero. Each
/// field keeps the low bits its width holds.
pub open spec fn streaminfo_bytes(bs: u16, min_fs: u32, max_fs: u32, sr: u32, ch: u32, bps: u32, total: u64) -> Seq<u8> {
    seq![
        (bs / 256) as u8, (bs % 256) as u8,
        (bs / 256) as u8, (bs % 256) as u8,
        ((min_fs / 65536) % 256) as u8, ((min_fs / 256) % 256) as u8, (min_fs % 256) as u8,
        ((max_fs / 65536) % 256) as u8, ((max_fs / 256) % 256) as u8, (max_fs % 256) as u8,
        ((sr / 4096) % 256) as u8, ((sr / 16) % 256) as u8,
        ((sr % 16) * 16 + ((ch - 1) % 8) * 2 + ((bps - 1) / 16) % 2) as u8,
        (((bps - 1) % 16) * 16 + (total / 0x1_0000_0000) % 16) as u8,
        ((total / 0x100_0000) % 256) as u8, ((total / 0x1_0000) % 256) as u8,
        ((total / 0x100) % 256) as u8, (total % 256) as u8,
    ] + Seq::new(16, |i: int| 0u8)
}

/// Writer of native FLAC files.
pub struct FlacMuxer {
    streaminfo_offset: u64,
    frame_count: u64,
    sample_rate: u32,
    channels: u32,
    bits_per_sample: u32,
    block_size: u32,
    min_frame_size: u32,
    max_frame_size: u32,
    total_samples: u64,
}

/// Bits per sample named by a STREAMINFO's bytes 12 and 13, plus one; 0
/// when the data is shorter than 14 bytes.
pub open spec fn streaminfo_bps(si: Seq<u8>) -> u32 {
    if si.len() < 14 {
        0
    } else {
        ((si[12] % 2) * 16 + si[13] / 16 + 1) as u32
    }
}

/// Reads the bits per sample from STREAMINFO bytes.
pub fn extract_bps_from_streaminfo(si: &[u8]) -> (r: u32)
    ensures
        r == streaminfo_bps(si@),
{
    if si.len() < 14 {
        return 0;
    }
    let byte12 = si[12] as u32;
    let byte13 = si[13] as u32;
    (byte12 % 2) * 16 + byte13 / 16 + 1
}

/// Bits per sample for a sample format: 8, 16, 24 for 32-bit, else 16.
pub open spec fn format_bps(f: SampleFormat) -> u32 {
    match f {
        SampleFormat::U8 => 8,
        SampleFormat::S16 => 16,
        SampleFormat::S32 => 24,
        _ => 16,
    }
}

impl FlacMuxer {
    /// Offset of the STREAMINFO block header.
    pub closed spec fn streaminfo_at(&self) -> u64 {
        self.streaminfo_offset
    }

    /// The STREAMINFO bytes for the current state.
    pub closed spec fn streaminfo_now(&self) -> Seq<u8> {
        let min_fs: u32 = if self.min_frame_size == 0xFFFF_FFFF { 0 } else { self.min_frame_size };
        streaminfo_bytes(self.block_size as u16, min_fs, self.max_frame_size, self.sample_rate, self.channels, self.bits_per_sample, self.total_samples)
    }

    /// Channels of the stream being written.
    pub closed spec fn channel_count(&self) -> u32 {
        self.channels
    }

    /// Samples written so far.
    pub closed spec fn samples(&self) -> u64 {
        self.total_samples
    }

    /// Sample rate of the stream being written.
    pub closed spec fn rate(&self) -> u32 {
        self.sample_rate
    }

    /// Block size STREAMINFO names.
    pub closed spec fn block(&self) -> u32 {
        self.block_size
    }

    /// Bits per sample STREAMINFO names.
    pub closed spec fn bps(&self) -> u32 {
        self.bits_per_sample
    }

    /// Smallest frame written so far; `u32::MAX` before the first.
    pub closed spec fn min_fs(&self) -> u32 {
        self.min_frame_size
    }

    /// Largest frame written so far; 0 before the first.
    pub closed spec fn max_fs(&self) -> u32 {
        self.max_frame_size
    }

    /// Frames written so far.
    pub closed spec fn frames(&self) -> u64 {
        self.frame_count
    }

    /// A muxer before `write_header`.
    pub fn new() -> (r: Self)
        ensures
            r.channel_count() == 0,
            r.samples() == 0,
            r.frames() == 0,
            r.streaminfo_at() == 0,
            r.rate() == 0,
            r.bps() == 0,
            r.block() == 4096,
            r.min_fs() == 0xFFFF_FFFF,
            r.max_fs() == 0,
    {
        FlacMuxer {
            streaminfo_offset: 0,
            frame_count: 0,
            sample_rate: 0,
            channels: 0,
            bits_per_sample: 0,
            block_size: 4096,
            min_frame_size: 0xFFFF_FFFF,
            max_frame_size: 0,
            total_samples: 0,
        }
    }

    /// A boxed muxer, for a registry.
    pub fn create() -> (r: TaoResult<Box<dyn Muxer>>)
        ensures
            r matches Ok(m) && m.format_kind() == FormatId::FlacContainer,
    {
        Ok(Box::new(FlacMuxer::new()))
    }

    /// The 34 STREAMINFO bytes for the current state.
    fn build_streaminfo(&self) -> (r: Vec<u8>)
        requires
            self.channel_count() > 0,
            self.bps() > 0,
        ensures
            r@ == self.streaminfo_now(),
    {
        let mut si: Vec<u8> = Vec::new();
        let bs = #[verifier::truncate] (self.block_size as u16);
        let min_fs: u32 = if self.min_frame_size == 0xFFFF_FFFF { 0 } else { self.min_frame_size };
        let max_fs = self.max_frame_size;
        let sr = self.sample_rate;
        si.push((bs / 256) as u8);
        si.push((bs % 256) as u8);
        si.push((bs / 256) as u8);
        si.push((bs % 256) as u8);
        si.push(((min_fs / 65536) % 256) as u8);
        si.push(((min_fs / 256) % 256) as u8);
        si.push((min_fs % 256) as u8);
        si.push(((max_fs / 65536) % 256) as u8);
        si.push(((max_fs / 256) % 256) as u8);
        si.push((max_fs % 256) as u8);
        si.push(((sr / 4096) % 256) as u8);
        si.push(((sr / 16) % 256) as u8);
        let sr_low = (sr % 16) * 16;
        let ch_bits = ((self.channels - 1) % 8) * 2;
        let bps_hi = ((self.bits_per_sample - 1) / 16) % 2;
        si.push((sr_low + ch_bits + bps_hi) as u8);
        let bps_lo = ((self.bits_per_sample - 1) % 16) * 16;
        let total_hi = ((self.total_samples / 0x1_0000_0000) % 16) as u32;
        si.push((bps_lo + total_hi) as u8);
        let t = self.total_samples;
        si.push(((t / 0x100_0000) % 256) as u8);
        si.push(((t / 0x1_0000) % 256) as u8);
        si.push(((t / 0x100) % 256) as u8);
        si.push((t % 256) as u8);
        let mut k: usize = 0;
        while k < 16
            invariant
                k <= 16,
                si@.len() == 18 + k,
                forall|j: int| 18 <= j < si@.len() ==> si@[j] == 0u8,
                si@.subrange(0, 18) == streaminfo_bytes(bs, min_fs, max_fs, sr, self.channels, self.bits_per_sample, self.total_samples).subrange(0, 18),
            decreases 16 - k,
        {
            si.push(0u8);
            k = k + 1;
        }
        proof {
            let target = streaminfo_bytes(bs, min_fs, max_fs, sr, self.channels, self.bits_per_sample, self.total_samples);
            assert forall|j: int| 0 <= j < 34 implies si@[j] == target[j] by {
                if j < 18 {
                    assert(si@.subrange(0, 18)[j] == target.subrange(0, 18)[j]);
                }
            }
            assert(si@ =~= target);
        }
        si
    }
}

/// Whether `write_header` can take these streams: a FLAC audio stream with
/// at least one channel (STREAMINFO codes channels minus one).
pub open spec fn flac_header_fits(streams: Seq<Stream>) -> bool {
    streams.len() == 1 && streams[0].codec_id == CodecId::Flac && streams[0].params is Audio
        ==> streams[0].params->Audio_0.channel_layout.channels > 0
}

impl FlacMuxer {
    /// What `write_header` does: for one FLAC audio stream, takes its
    /// parameters and writes `fLaC` and a last-block STREAMINFO at the
    /// cursor; otherwise fails with `InvalidArgument` and writes nothing.
    pub open spec fn header_post(old_self: Self, new_self: Self, old_io: IoContext, new_io: IoContext, streams: Seq<Stream>, r: TaoResult<()>) -> bool {
        if streams.len() != 1 || streams[0].codec_id != CodecId::Flac || !(streams[0].params is Audio) {
            r matches Err(e) && e.kind() == ErrorKind::InvalidArgument && new_io == old_io && new_self == old_self
        } else {
            let a = streams[0].params->Audio_0;
            let x = streams[0].extra_data@;
            &&& r is Ok
            &&& new_self.channel_count() == a.channel_layout.channels
            &&& new_self.rate() == a.sample_rate
            &&& new_self.block() == (if a.frame_size > 0 { a.frame_size } else { 4096 })
            &&& new_self.bps() == (if x.len() >= 18 && streaminfo_bps(x) > 0 { streaminfo_bps(x) } else { format_bps(a.sample_format) })
            &&& new_self.samples() == old_self.samples()
            &&& new_self.frames() == old_self.frames()
            &&& new_self.min_fs() == old_self.min_fs()
            &&& new_self.max_fs() == old_self.max_fs()
            &&& new_self.streaminfo_at() == old_io.cursor() + 4
            &&& new_io.contents() == written(old_io.contents(), old_io.cursor(),
                seq![0x66u8, 0x4C, 0x61, 0x43, 0x80, 0, 0, 34] + new_self.streaminfo_now())
            &&& new_io.cursor() == old_io.cursor() + 42
        }
    }

    /// Writes `fLaC` and STREAMINFO for a single FLAC audio stream.
    pub fn write_flac_header(&mut self, io: &mut IoContext, streams: &[Stream]) -> (r: TaoResult<()>)
        requires
            out_in_range(*old(io)),
            flac_header_fits(streams@),
        ensures
            Self::header_post(*old(self), *final(self), *old(io), *final(io), streams@, r),
    {
        if streams.len() != 1 {
            return Err(invalid_argument("FLAC takes exactly one audio stream"));
        }
        let stream = &streams[0];
        if stream.codec_id != CodecId::Flac {
            return Err(invalid_argument("FLAC \u{5c01}\u{88c5}\u{5668}\u{4ec5}\u{652f}\u{6301} FLAC \u{7f16}\u{89e3}\u{7801}\u{5668}"));
        }
        let audio = match &stream.params {
            StreamParams::Audio(a) => a,
            _ => {
                return Err(invalid_argument("FLAC takes audio streams only"));
            },
        };
        self.sample_rate = audio.sample_rate;
        self.channels = audio.channel_layout.channels;
        self.block_size = if audio.frame_size > 0 {
            audio.frame_size
        } else {
            4096
        };
        self.bits_per_sample = match audio.sample_format {
            SampleFormat::U8 => 8,
            SampleFormat::S16 => 16,
            SampleFormat::S32 => 24,
            _ => 16,
        };
        if stream.extra_data.len() >= 18 {
            let bps = extract_bps_from_streaminfo(stream.extra_data.as_slice());
            if bps > 0 {
                self.bits_per_sample = bps;
            }
        }
        let mut head: Vec<u8> = Vec::new();
        head.push(0x66);
        head.push(0x4C);
        head.push(0x61);
        head.push(0x43);
        io.write_all(head.as_slice())?;
        self.streaminfo_offset = io.position()?;
        let mut block: Vec<u8> = Vec::new();
        block.push(0x80);
        block.push(0);
        block.push(0);
        block.push(34);
        let si = self.build_streaminfo();
        let mut k: usize = 0;
        while k < si.len()
            invariant
                k <= si@.len(),
                block@ == seq![0x80u8, 0, 0, 34] + si@.subrange(0, k as int),
            decreases si.len() - k,
        {
            block.push(si[k]);
            k = k + 1;
            assert(block@ =~= seq![0x80u8, 0, 0, 34] + si@.subrange(0, k as int));
        }
        let ghost mid = io.contents();
        let ghost c0 = old(io).cursor();
        io.write_all(block.as_slice())?;
        proof {
            assert(si@.subrange(0, si@.len() as int) =~= si@);
            crate::io::lemma_written_concat(old(io).contents(), c0, head@, block@);
            assert(head@ + block@ =~= seq![0x66u8, 0x4C, 0x61, 0x43, 0x80, 0, 0, 34] + si@);
        }
        Ok(())
    }

    /// Appends a frame and updates the frame size range and sample count.
    pub fn write_flac_packet(&mut self, io: &mut IoContext, packet: &Packet) -> (r: TaoResult<()>)
        requires
            out_in_range(*old(io)),
            packet.payload().len() <= 0x1_0000_0000_0000,
            old(self).samples() + (packet.duration as u64) <= u64::MAX,
            old(self).frames() + 1 <= u64::MAX,
        ensures
            r is Ok,
            final(io).contents() == written(old(io).contents(), old(io).cursor(), packet.payload()),
            final(io).cursor() == old(io).cursor() + packet.payload().len(),
            final(self).samples() == old(self).samples() + (packet.duration as u64),
            final(self).frames() == old(self).frames() + 1,
            final(self).min_fs() == (if (packet.payload().len() as u32) < old(self).min_fs() {
                packet.payload().len() as u32
            } else {
                old(self).min_fs()
            }),
            final(self).max_fs() == (if (packet.payload().len() as u32) > old(self).max_fs() {
                packet.payload().len() as u32
            } else {
                old(self).max_fs()
            }),
            final(self).channel_count() == old(self).channel_count(),
            final(self).streaminfo_at() == old(self).streaminfo_at(),
            final(self).bps() == old(self).bps(),
    {
        let data = bytes_as_slice(&packet.data);
        io.write_all(data)?;
        let frame_size = data.len() as u32;
        if frame_size < self.min_frame_size {
            self.min_frame_size = frame_size;
        }
        if frame_size > self.max_frame_size {
            self.max_frame_size = frame_size;
        }
        self.total_samples = self.total_samples + packet.duration as u64;
        self.frame_count = self.frame_count + 1;
        Ok(())
    }

    /// Rewrites STREAMINFO with the current frame sizes and sample count,
    /// then moves to the end.
    pub fn write_flac_trailer(&mut self, io: &mut IoContext) -> (r: TaoResult<()>)
        requires
            out_in_range(*old(io)),
            old(self).channel_count() > 0,
            old(self).bps() > 0,
            old(self).streaminfo_at() + 38 <= 0x1_0000_0000_0000,
        ensures
            r is Ok,
            *final(self) == *old(self),
            final(io).contents() == written(old(io).contents(), (old(self).streaminfo_at() + 4) as nat, old(self).streaminfo_now()),
            final(io).cursor() == final(io).contents().len(),
    {
        let streaminfo = self.build_streaminfo();
        let si_data_offset = self.streaminfo_offset + 4;
        io.seek(SeekFrom::Start(si_data_offset))?;
        io.write_all(streaminfo.as_slice())?;
        io.seek(SeekFrom::End(0))?;
        Ok(())
    }
}

impl Muxer for FlacMuxer {
    open spec fn format_kind(&self) -> FormatId {
        FormatId::FlacContainer
    }

    open spec fn header_admits(&self, streams: Seq<Stream>) -> bool {
        flac_header_fits(streams)
    }

    open spec fn packet_admits(&self, packet: Packet) -> bool {
        &&& packet.payload().len() <= 0x1_0000_0000_0000
        &&& self.samples() + (packet.duration as u64) <= u64::MAX
        &&& self.frames() + 1 <= u64::MAX
    }

    open spec fn trailer_admits(&self) -> bool {
        &&& self.channel_count() > 0
        &&& self.bps() > 0
        &&& self.streaminfo_at() + 38 <= 0x1_0000_0000_0000
    }

    fn format_id(&self) -> (r: FormatId)
        ensures
            r == FormatId::FlacContainer,
    {
        FormatId::FlacContainer
    }

    fn name(&self) -> (r: &'static str)
        ensures
            r@ == "flac"@,
    {
        "flac"
    }

    fn write_header(&mut self, io: &mut IoContext, streams: &[Stream]) -> (r: TaoResult<()>)
        ensures
            Self::header_post(*old(self), *final(self), *old(io), *final(io), streams@, r),
    {
        self.write_flac_header(io, streams)
    }

    fn write_packet(&mut self, io: &mut IoContext, packet: &Packet) -> (r: TaoResult<()>)
        ensures
            r is Ok,
            final(io).contents() == written(old(io).contents(), old(io).cursor(), packet.payload()),
            final(self).samples() == old(self).samples() + (packet.duration as u64),
    {
        self.write_flac_packet(io, packet)
    }

    fn write_trailer(&mut self, io: &mut IoContext) -> (r: TaoResult<()>)
        ensures
            r is Ok,
            final(io).contents() == written(old(io).contents(), (old(self).streaminfo_at() + 4) as nat, old(self).streaminfo_now()),
    {
        self.write_flac_trailer(io)
    }
}

/// STREAMINFO as the muxer codes it reads back: when each field fits its
/// width (frame sizes in 24 bits, sample rate in 20, 1 to 8 channels, 1 to
/// 32 bits per sample, total samples in 36 bits), parsing the 34 bytes gives
/// back the block size as both minimum and maximum, each other field, and a
/// zero MD5.
pub proof fn law_streaminfo_round_trip(bs: u16, min_fs: u32, max_fs: u32, sr: u32, ch: u32, bps: u32, total: u64, i: StreamInfo)
    requires
        min_fs < 0x100_0000,
        max_fs < 0x100_0000,
        sr < 0x10_0000,
        1 <= ch <= 8,
        1 <= bps <= 32,
        total < 0x10_0000_0000,
        stream_info_is(i, streaminfo_bytes(bs, min_fs, max_fs, sr, ch, bps, total)),
    ensures
        i.min_block_size == bs,
        i.max_block_size == bs,
        i.min_frame_size == min_fs,
        i.max_frame_size == max_fs,
        i.sample_rate == sr,
        i.channels == ch,
        i.bits_per_sample == bps,
        i.total_samples == total,
        forall|k: int| 0 <= k < 16 ==> i.md5@[k] == 0u8,
{
    let d = streaminfo_bytes(bs, min_fs, max_fs, sr, ch, bps, total);
    assert(((bs / 256) as u8) * 256 + ((bs % 256) as u8) == bs) by (bit_vector);
    assert(((min_fs / 65536) % 256) * 65536 + ((min_fs / 256) % 256) * 256 + min_fs % 256 == min_fs) by (bit_vector)
        requires min_fs < 0x100_0000;
    assert(((max_fs / 65536) % 256) * 65536 + ((max_fs / 256) % 256) * 256 + max_fs % 256 == max_fs) by (bit_vector)
        requires max_fs < 0x100_0000;
    assert(((sr / 4096) % 256) * 4096 + ((sr / 16) % 256) * 16 + sr % 16 == sr) by (bit_vector)
        requires sr < 0x10_0000;
    assert(((total / 0x1_0000_0000) % 16) * 0x1_0000_0000 + ((total / 0x100_0000) % 256) * 16777216
        + ((total / 0x1_0000) % 256) * 65536 + ((total / 0x100) % 256) * 256 + total % 256 == total) by (bit_vector)
        requires total < 0x10_0000_0000;
    let b12: int = (sr % 16) * 16 + ((ch - 1) % 8) * 2 + ((bps - 1) / 16) % 2;
    let b13: int = ((bps - 1) % 16) * 16 + (total / 0x1_0000_0000) % 16;
    assert(d[12] == b12 && d[13] == b13);
    assert(b12 / 16 == sr % 16 && (b12 / 2) % 8 == ch - 1 && b12 % 2 == ((bps - 1) / 16) % 2) by (nonlinear_arith)
        requires b12 == (sr % 16) * 16 + ((ch - 1) % 8) * 2 + ((bps - 1) / 16) % 2, 1 <= ch <= 8;
    assert(b13 / 16 == (bps - 1) % 16 && b13 % 16 == (total / 0x1_0000_0000) % 16) by (nonlinear_arith)
        requires b13 == ((bps - 1) % 16) * 16 + (total / 0x1_0000_0000) % 16;
    assert(((bps - 1) / 16) % 2 * 16 + (bps - 1) % 16 + 1 == bps) by (nonlinear_arith)
        requires 1 <= bps <= 32;
    assert forall|k: int| 0 <= k < 16 implies i.md5@[k] == 0u8 by {
        assert(i.md5@[k] == d.subrange(18, 34)[k]);
    }
}

/// The marker, a last-block STREAMINFO header and the 34 bytes `si`, then
/// the frames: the file the muxer leaves.
pub open spec fn flac_file_bytes(si: Seq<u8>, frames: Seq<u8>) -> Seq<u8> {
    flac_marker() + seq![0x80u8, 0, 0, 34] + si + frames
}

/// A FLAC file the muxer writes opens again: the header written with one
/// STREAMINFO, the frames after it, then the trailer's STREAMINFO written
/// over the first; opening it finds the last STREAMINFO, no comments, and
/// the first frame at offset 42.
pub proof fn law_flac_write_then_open(si0: Seq<u8>, si1: Seq<u8>, frames: Seq<u8>)
    requires
        si0.len() == 34,
        si1.len() == 34,
    ensures
        written(flac_file_bytes(si0, frames), 8, si1) == flac_file_bytes(si1, frames),
        flac_open_outcome(flac_file_bytes(si1, frames), 0, None) == Ok::<(Seq<u8>, Seq<(Seq<char>, Seq<char>)>, int), ErrorKind>((si1, seq![], 42)),
{
    let f0 = flac_file_bytes(si0, frames);
    let f1 = flac_file_bytes(si1, frames);
    assert(f0.subrange(0, 8) =~= f1.subrange(0, 8));
    assert(f0.subrange(42, f0.len() as int) =~= frames);
    assert(written(f0, 8, si1) =~= f1);
    assert(f1.subrange(0, 4) =~= flac_marker());
    assert(f1.subrange(8, 42) =~= si1);
    assert(f1[4] == 0x80u8 && f1[5] == 0u8 && f1[6] == 0u8 && f1[7] == 34u8);
    assert(block_type_of(0) == Some(MetadataBlockType::StreamInfo));
    assert(flac_blocks(f1, 4, None, seq![]) == Ok::<(Option<Seq<u8>>, Seq<(Seq<char>, Seq<char>)>, int), ErrorKind>((Some(si1), seq![], 42)));
}

} // verus!

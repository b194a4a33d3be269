//! AIFF writer: a `FORM`/`AIFF` header with an 18 byte `COMM` chunk and an
//! `SSND` chunk holding the big-endian samples; the trailer fills in the
//! form size, the frame count and the `SSND` size.

use vstd::prelude::*;
use crate::error::{ErrorKind, TaoError, TaoResult, invalid_argument, unsupported};
use crate::format_id::FormatId;
use crate::io::{IoContext, SeekFrom, written, bytes_at, lemma_bytes_at_subrange};
use crate::endian::{be16, be32, be16_bytes, be32_bytes, push_be16, push_be32, push_tag, push_all, lemma_bytes_read_back};
use crate::media::{CodecId, Packet, Stream, StreamParams};
use crate::muxer::{Muxer, out_in_range};
use crate::packet_data::bytes_as_slice;
use crate::demuxers::aiff::{
    form_tag, aiff_tag, aifc_tag, comm_tag, aiff_next_chunk, ssnd_tag, extended_bytes, extended_rate, write_extended_rate,
    law_extended_rate_round_trip, aiff_open_outcome, aiff_scan, aiff_codec, aiff_pcm_codec, be16_of,
    be32_of, comm_ct_at, AiffScan,
};

verus! {

/// Bit depth AIFF writes for a codec; `None` when it cannot carry it.
pub open spec fn aiff_bits_of(c: CodecId) -> Option<u16> {
    match c {
        CodecId::PcmU8 => Some(8u16),
        CodecId::PcmS16be => Some(16u16),
        CodecId::PcmS16le => Some(16u16),
        CodecId::PcmS24le => Some(24u16),
        CodecId::PcmS32le => Some(32u16),
        CodecId::PcmF32le => Some(32u16),
        _ => None,
    }
}

/// The 54 byte header: `FORM`, the form size, `AIFF`, the `COMM` chunk
/// (channels, frame count, bit depth, rate) and the `SSND` chunk head (size,
/// zero offset, zero block size).
#[verifier::opaque]
pub open spec fn aiff_header_bytes(ch: u16, bits: u16, rate: u32, form: u32, frames: u32, ssnd: u32) -> Seq<u8> {
    form_tag() + be32_bytes(form) + aiff_tag() + comm_tag() + be32_bytes(18) + be16_bytes(ch) + be32_bytes(frames)
        + be16_bytes(bits) + extended_bytes(rate) + ssnd_tag() + be32_bytes(ssnd) + be32_bytes(0) + be32_bytes(0)
}

/// Whether `write_header` would overflow on these streams: the block
/// alignment of a supported audio stream must fit in a `u16`.
pub open spec fn aiff_header_fits(streams: Seq<Stream>) -> bool {
    streams.len() == 1 && streams[0].params is Audio && aiff_bits_of(streams[0].codec_id) is Some ==> {
        let a = streams[0].params->Audio_0;
        let ch = a.channel_layout.channels as u16;
        ch * (aiff_bits_of(streams[0].codec_id)->Some_0 / 8) <= 0xFFFF
    }
}

/// Channel count, bit depth and rate `write_header` writes for `s`.
pub open spec fn aiff_comm_for(s: Stream) -> (u16, u16, u32) {
    let a = s.params->Audio_0;
    (a.channel_layout.channels as u16, aiff_bits_of(s.codec_id)->Some_0, a.sample_rate)
}

/// The header `write_header` writes for `s`, sizes 0.
pub open spec fn aiff_header_for(s: Stream) -> Seq<u8> {
    let (ch, bits, rate) = aiff_comm_for(s);
    aiff_header_bytes(ch, bits, rate, 0, 0, 0)
}

/// Writer of AIFF files.
pub struct AiffMuxer {
    form_size_offset: u64,
    ssnd_size_offset: u64,
    num_frames_offset: u64,
    data_written: u64,
    block_align: u16,
}

impl AiffMuxer {
    /// Where the form size is patched.
    pub closed spec fn form_size_at(&self) -> u64 {
        self.form_size_offset
    }

    /// Where the `SSND` size is patched.
    pub closed spec fn ssnd_size_at(&self) -> u64 {
        self.ssnd_size_offset
    }

    /// Where the frame count is patched.
    pub closed spec fn frames_at(&self) -> u64 {
        self.num_frames_offset
    }

    /// Bytes of sample data written so far.
    pub closed spec fn data_count(&self) -> u64 {
        self.data_written
    }

    /// Bytes per sample frame.
    pub closed spec fn frame_bytes(&self) -> u16 {
        self.block_align
    }

    /// A muxer before `write_header`.
    pub fn new() -> (r: Self)
        ensures
            r.form_size_at() == 0,
            r.ssnd_size_at() == 0,
            r.frames_at() == 0,
            r.data_count() == 0,
            r.frame_bytes() == 0,
    {
        AiffMuxer { form_size_offset: 0, ssnd_size_offset: 0, num_frames_offset: 0, data_written: 0, block_align: 0 }
    }

    /// A boxed muxer, for a registry.
    pub fn create() -> (r: TaoResult<Box<dyn Muxer>>)
        ensures
            r matches Ok(m) && m.format_kind() == FormatId::Aiff,
    {
        Ok(Box::new(AiffMuxer::new()))
    }

    /// Bit depth of a codec AIFF can carry.
    fn resolve_bits_per_sample(codec_id: CodecId) -> (r: TaoResult<u16>)
        ensures
            match aiff_bits_of(codec_id) {
                Some(b) => r == Ok::<u16, TaoError>(b),
                None => r matches Err(e) && e.kind() == ErrorKind::Unsupported,
            },
    {
        match codec_id {
            CodecId::PcmU8 => Ok(8),
            CodecId::PcmS16be => Ok(16),
            CodecId::PcmS16le => Ok(16),
            CodecId::PcmS24le => Ok(24),
            CodecId::PcmS32le => Ok(32),
            CodecId::PcmF32le => Ok(32),
            _ => Err(unsupported("AIFF cannot carry this codec")),
        }
    }

    /// What `write_header` does: one audio stream of a supported codec gets
    /// the 54 byte header at the cursor; anything else is refused and
    /// changes nothing.
    pub open spec fn header_post(
        old_self: AiffMuxer,
        new_self: AiffMuxer,
        old_io: IoContext,
        new_io: IoContext,
        streams: Seq<Stream>,
        r: TaoResult<()>,
    ) -> bool {
        if streams.len() != 1 || !(streams[0].params is Audio) {
            r matches Err(e) && e.kind() == ErrorKind::InvalidArgument && new_io == old_io && new_self == old_self
        } else if aiff_bits_of(streams[0].codec_id) is None {
            r matches Err(e) && e.kind() == ErrorKind::Unsupported && new_io == old_io && new_self == old_self
        } else {
            let (ch, bits, rate) = aiff_comm_for(streams[0]);
            &&& r is Ok
            &&& new_io.contents() == written(old_io.contents(), old_io.cursor(), aiff_header_for(streams[0]))
            &&& new_io.cursor() == old_io.cursor() + 54
            &&& new_self.form_size_at() == 4
            &&& new_self.frames_at() == old_io.cursor() + 22
            &&& new_self.ssnd_size_at() == old_io.cursor() + 42
            &&& new_self.data_count() == 0
            &&& new_self.frame_bytes() == ch * (bits / 8)
        }
    }

    /// Writes the header for a single PCM audio stream.
    pub fn write_aiff_header(&mut self, io: &mut IoContext, streams: &[Stream]) -> (r: TaoResult<()>)
        requires
            out_in_range(*old(io)),
            aiff_header_fits(streams@),
        ensures
            Self::header_post(*old(self), *final(self), *old(io), *final(io), streams@, r),
    {
        if streams.len() != 1 {
            return Err(invalid_argument("AIFF takes exactly one audio stream"));
        }
        let stream = &streams[0];
        let audio = match &stream.params {
            StreamParams::Audio(a) => a,
            _ => {
                return Err(invalid_argument("AIFF takes audio streams only"));
            },
        };
        let bits_per_sample = Self::resolve_bits_per_sample(stream.codec_id)?;
        let channels = audio.channel_layout.channels as u16;
        let sample_rate = audio.sample_rate;
        let block_align = channels * (bits_per_sample / 8);
        self.block_align = block_align;
        let start = io.position()?;
        let rate = write_extended_rate(sample_rate);
        let mut h: Vec<u8> = Vec::new();
        push_tag(&mut h, &[0x46u8, 0x4F, 0x52, 0x4D]);
        push_be32(&mut h, 0);
        push_tag(&mut h, &[0x41u8, 0x49, 0x46, 0x46]);
        push_tag(&mut h, &[0x43u8, 0x4F, 0x4D, 0x4D]);
        push_be32(&mut h, 18);
        push_be16(&mut h, channels);
        push_be32(&mut h, 0);
        push_be16(&mut h, bits_per_sample);
        push_all(&mut h, rate.as_slice());
        push_tag(&mut h, &[0x53u8, 0x53, 0x4E, 0x44]);
        push_be32(&mut h, 0);
        push_be32(&mut h, 0);
        push_be32(&mut h, 0);
        assert(h@ =~= aiff_header_for(streams@[0])) by {
            reveal(aiff_header_bytes);
        }
        io.write_all(h.as_slice())?;
        self.form_size_offset = 4;
        self.num_frames_offset = start + 22;
        self.ssnd_size_offset = start + 42;
        self.data_written = 0;
        Ok(())
    }

    /// Appends the packet's bytes to the sample data.
    pub fn write_aiff_packet(&mut self, io: &mut IoContext, packet: &Packet) -> (r: TaoResult<()>)
        requires
            out_in_range(*old(io)),
            packet.payload().len() <= 0x1_0000_0000_0000,
            old(self).data_count() + packet.payload().len() <= u64::MAX,
        ensures
            r is Ok,
            final(io).contents() == written(old(io).contents(), old(io).cursor(), packet.payload()),
            final(io).cursor() == old(io).cursor() + packet.payload().len(),
            final(self).data_count() == old(self).data_count() + packet.payload().len(),
            final(self).form_size_at() == old(self).form_size_at(),
            final(self).frames_at() == old(self).frames_at(),
            final(self).ssnd_size_at() == old(self).ssnd_size_at(),
            final(self).frame_bytes() == old(self).frame_bytes(),
    {
        let data = bytes_as_slice(&packet.data);
        io.write_all(data)?;
        self.data_written = self.data_written + data.len() as u64;
        Ok(())
    }

    /// The frame count the trailer writes for `n` data bytes.
    pub open spec fn frames_for(n: u32, ba: u16) -> u32 {
        if ba > 0 { (n / ba as u32) as u32 } else { 0 }
    }

    /// The file after the trailer: the form size (46 plus the data size),
    /// the frame count and the `SSND` size (8 plus the data size) patched in.
    pub open spec fn trailer_bytes(old_self: AiffMuxer, old_io: IoContext) -> Seq<u8> {
        let n = old_self.data_count() as u32;
        written(
            written(
                written(old_io.contents(), old_self.form_size_at() as nat, be32_bytes((46 + n) as u32)),
                old_self.frames_at() as nat,
                be32_bytes(Self::frames_for(n, old_self.frame_bytes())),
            ),
            old_self.ssnd_size_at() as nat,
            be32_bytes((8 + n) as u32),
        )
    }

    /// Fills in the form size, the frame count and the `SSND` size.
    pub fn write_aiff_trailer(&mut self, io: &mut IoContext) -> (r: TaoResult<()>)
        requires
            out_in_range(*old(io)),
            old(self).form_size_at() + 4 <= 0x1_0000_0000_0000,
            old(self).frames_at() + 4 <= 0x1_0000_0000_0000,
            old(self).ssnd_size_at() + 4 <= 0x1_0000_0000_0000,
            46 + (old(self).data_count() as u32) <= u32::MAX,
        ensures
            r is Ok,
            *final(self) == *old(self),
            final(io).contents() == Self::trailer_bytes(*old(self), *old(io)),
            final(io).cursor() == old(self).ssnd_size_at() + 4,
    {
        if !io.is_seekable() {
            return Ok(());
        }
        let data_size = self.data_written as u32;
        let ssnd_chunk_size = 8 + data_size;
        let form_size = 4 + 26 + 8 + ssnd_chunk_size;
        let num_frames = if self.block_align > 0 {
            data_size / self.block_align as u32
        } else {
            0
        };
        io.seek(SeekFrom::Start(self.form_size_offset))?;
        io.write_u32_be(form_size)?;
        io.seek(SeekFrom::Start(self.num_frames_offset))?;
        io.write_u32_be(num_frames)?;
        io.seek(SeekFrom::Start(self.ssnd_size_offset))?;
        io.write_u32_be(ssnd_chunk_size)?;
        Ok(())
    }
}

impl Muxer for AiffMuxer {
    open spec fn format_kind(&self) -> FormatId {
        FormatId::Aiff
    }

    open spec fn header_admits(&self, streams: Seq<Stream>) -> bool {
        aiff_header_fits(streams)
    }

    open spec fn packet_admits(&self, packet: Packet) -> bool {
        &&& packet.payload().len() <= 0x1_0000_0000_0000
        &&& self.data_count() + packet.payload().len() <= u64::MAX
    }

    open spec fn trailer_admits(&self) -> bool {
        &&& self.form_size_at() + 4 <= 0x1_0000_0000_0000
        &&& self.frames_at() + 4 <= 0x1_0000_0000_0000
        &&& self.ssnd_size_at() + 4 <= 0x1_0000_0000_0000
        &&& 46 + (self.data_count() as u32) <= u32::MAX
    }

    fn format_id(&self) -> (r: FormatId)
        ensures
            r == FormatId::Aiff,
    {
        FormatId::Aiff
    }

    fn name(&self) -> (r: &'static str)
        ensures
            r@ == "aiff"@,
    {
        "aiff"
    }

    fn write_header(&mut self, io: &mut IoContext, streams: &[Stream]) -> (r: TaoResult<()>)
        ensures
            Self::header_post(*old(self), *final(self), *old(io), *final(io), streams@, r),
    {
        self.write_aiff_header(io, streams)
    }

    fn write_packet(&mut self, io: &mut IoContext, packet: &Packet) -> (r: TaoResult<()>)
        ensures
            r is Ok,
            final(io).contents() == written(old(io).contents(), old(io).cursor(), packet.payload()),
            final(io).cursor() == old(io).cursor() + packet.payload().len(),
            final(self).data_count() == old(self).data_count() + packet.payload().len(),
    {
        self.write_aiff_packet(io, packet)
    }

    fn write_trailer(&mut self, io: &mut IoContext) -> (r: TaoResult<()>)
        ensures
            r is Ok,
            final(io).contents() == Self::trailer_bytes(*old(self), *old(io)),
    {
        self.write_aiff_trailer(io)
    }
}

/// The file the muxer leaves at offset 0 for the stream `s` and the sample
/// bytes `data`: the header and the data, then the form size, the frame
/// count and the `SSND` size patched in.
#[verifier::opaque]
pub open spec fn aiff_muxed_file(s: Stream, data: Seq<u8>) -> Seq<u8> {
    let (ch, bits, rate) = aiff_comm_for(s);
    let n = data.len() as u32;
    written(
        written(
            written(aiff_header_for(s) + data, 4, be32_bytes((46 + n) as u32)),
            22,
            be32_bytes(AiffMuxer::frames_for(n, (ch * (bits / 8)) as u16)),
        ),
        42,
        be32_bytes((8 + n) as u32),
    )
}

/// Patching the three sizes of a header followed by data gives the header
/// with those sizes.
proof fn lemma_aiff_file_shape(ch: u16, bits: u16, rate: u32, data: Seq<u8>, a: u32, b: u32, c: u32)
    ensures
        written(
            written(written(aiff_header_bytes(ch, bits, rate, 0, 0, 0) + data, 4, be32_bytes(a)), 22, be32_bytes(b)),
            42,
            be32_bytes(c),
        ) =~= aiff_header_bytes(ch, bits, rate, a, b, c) + data,
{
    reveal(aiff_header_bytes);
    let mid1 = aiff_tag() + comm_tag() + be32_bytes(18) + be16_bytes(ch);
    let mid2 = be16_bytes(bits) + extended_bytes(rate) + ssnd_tag();
    assert(extended_bytes(rate).len() == 10);
    let tail = be32_bytes(0) + be32_bytes(0);
    let x0 = aiff_header_bytes(ch, bits, rate, 0, 0, 0) + data;
    assert(x0 =~= form_tag() + be32_bytes(0) + mid1 + be32_bytes(0) + mid2 + be32_bytes(0) + tail + data);
    let x1 = written(x0, 4, be32_bytes(a));
    assert(x1 =~= form_tag() + be32_bytes(a) + mid1 + be32_bytes(0) + mid2 + be32_bytes(0) + tail + data);
    let x2 = written(x1, 22, be32_bytes(b));
    assert(x2 =~= form_tag() + be32_bytes(a) + mid1 + be32_bytes(b) + mid2 + be32_bytes(0) + tail + data);
    let x3 = written(x2, 42, be32_bytes(c));
    assert(x3 =~= form_tag() + be32_bytes(a) + mid1 + be32_bytes(b) + mid2 + be32_bytes(c) + tail + data);
    assert(aiff_header_bytes(ch, bits, rate, a, b, c) =~= form_tag() + be32_bytes(a) + mid1 + be32_bytes(b) + mid2
        + be32_bytes(c) + tail);
}

/// The fields of a whole AIFF file: header with sizes `a`, `b`, `c`, then
/// the data.
proof fn lemma_aiff_file_fields(ch: u16, bits: u16, rate: u32, data: Seq<u8>, a: u32, b: u32, c: u32)
    ensures
        ({
            let f = aiff_header_bytes(ch, bits, rate, a, b, c) + data;
            &&& f.len() == 54 + data.len()
            &&& f.subrange(0, 4) == form_tag()
            &&& f.subrange(8, 12) == aiff_tag()
            &&& f.subrange(12, 16) == comm_tag()
            &&& be32_of(f, 16) == 18
            &&& be16_of(f, 20) == ch
            &&& be32_of(f, 22) == b
            &&& be16_of(f, 26) == bits
            &&& f.subrange(28, 38) == extended_bytes(rate)
            &&& f.subrange(38, 42) == ssnd_tag()
            &&& be32_of(f, 42) == c
            &&& be32_of(f, 46) == 0
            &&& f.subrange(54, f.len() as int) == data
        }),
{
    reveal(aiff_header_bytes);
    let h = aiff_header_bytes(ch, bits, rate, a, b, c);
    let f = h + data;
    assert(extended_bytes(rate).len() == 10);
    lemma_bytes_read_back(ch, 18);
    lemma_bytes_read_back(bits, b);
    lemma_bytes_read_back(0, c);
    lemma_bytes_read_back(0, 0);
    assert(f.subrange(0, 4) =~= form_tag());
    assert(f.subrange(8, 12) =~= aiff_tag());
    assert(f.subrange(12, 16) =~= comm_tag());
    assert(f.subrange(16, 20) =~= be32_bytes(18));
    assert(f.subrange(20, 22) =~= be16_bytes(ch));
    assert(f.subrange(22, 26) =~= be32_bytes(b));
    assert(f.subrange(26, 28) =~= be16_bytes(bits));
    assert(f.subrange(28, 38) =~= extended_bytes(rate));
    assert(f.subrange(38, 42) =~= ssnd_tag());
    assert(f.subrange(42, 46) =~= be32_bytes(c));
    assert(f.subrange(46, 50) =~= be32_bytes(0));
    assert(f.subrange(54, f.len() as int) =~= data);
    assert(f[16] == f.subrange(16, 20)[0] && f[17] == f.subrange(16, 20)[1] && f[18] == f.subrange(16, 20)[2] && f[19] == f.subrange(16, 20)[3]);
    assert(f[20] == f.subrange(20, 22)[0] && f[21] == f.subrange(20, 22)[1]);
    assert(f[22] == f.subrange(22, 26)[0] && f[23] == f.subrange(22, 26)[1] && f[24] == f.subrange(22, 26)[2] && f[25] == f.subrange(22, 26)[3]);
    assert(f[26] == f.subrange(26, 28)[0] && f[27] == f.subrange(26, 28)[1]);
    assert(f[42] == f.subrange(42, 46)[0] && f[43] == f.subrange(42, 46)[1] && f[44] == f.subrange(42, 46)[2] && f[45] == f.subrange(42, 46)[3]);
    assert(f[46] == f.subrange(46, 50)[0] && f[47] == f.subrange(46, 50)[1] && f[48] == f.subrange(46, 50)[2] && f[49] == f.subrange(46, 50)[3]);
}

/// A file with these fields opens with its `COMM` at 20 and its data at 54.
proof fn lemma_aiff_opens(f: Seq<u8>, bits: u16, n: nat)
    requires
        f.len() == 54 + n,
        n + 46 <= u32::MAX,
        f.subrange(0, 4) == form_tag(),
        f.subrange(8, 12) == aiff_tag(),
        f.subrange(12, 16) == comm_tag(),
        be32_of(f, 16) == 18,
        be16_of(f, 26) == bits,
        f.subrange(38, 42) == ssnd_tag(),
        be32_of(f, 42) == 8 + n,
        be32_of(f, 46) == 0,
        aiff_pcm_codec(bits) is Some,
    ensures
        aiff_open_outcome(f, 0) == Ok::<(bool, int, int, int, u64), ErrorKind>((false, 20, 18, 54, n as u64)),
{
    assert(aiff_tag() != aifc_tag()) by {
        assert(aiff_tag()[3] != aifc_tag()[3]);
    }
    assert(ssnd_tag() != comm_tag()) by {
        assert(ssnd_tag()[0] != comm_tag()[0]);
    }
    assert(f.subrange(38, 42) != comm_tag());
    assert(aiff_scan(f, 38, false, Some((20, 18))) == AiffScan::Found(20, 18, 54, n as u64));
    assert(aiff_next_chunk(12, 18, 18) == 38);
    assert(aiff_scan(f, 12, false, None) == AiffScan::Found(20, 18, 54, n as u64));
    assert(comm_ct_at(f, 20, 18, false) is None);
}

/// Writing an AIFF file and opening it again gives back the stream's
/// channel count, bit depth and sample rate, and the data at offset 54:
/// for one audio stream of a codec AIFF carries whose header fits, and
/// sample data of at most 2^32 - 47 bytes, opening the file the muxer
/// leaves finds an uncompressed `COMM` at 20 with those fields, the frame
/// count of the data, and the data bytes unchanged; the codec read back is
/// the big-endian PCM codec of the bit depth, which is the stream's own for
/// `PcmU8`, `PcmS16be`, `PcmS24le` and `PcmS32le`.
pub proof fn law_aiff_write_then_open(s: Stream, data: Seq<u8>)
    requires
        s.params is Audio,
        aiff_bits_of(s.codec_id) is Some,
        aiff_header_fits(seq![s]),
        data.len() + 46 <= u32::MAX,
    ensures
        ({
            let f = aiff_muxed_file(s, data);
            let (ch, bits, rate) = aiff_comm_for(s);
            let n = data.len();
            &&& aiff_open_outcome(f, 0) == Ok::<(bool, int, int, int, u64), ErrorKind>((false, 20, 18, 54, n as u64))
            &&& be16_of(f, 20) == ch
            &&& be32_of(f, 22) == AiffMuxer::frames_for(n as u32, (ch * (bits / 8)) as u16)
            &&& be16_of(f, 26) == bits
            &&& extended_rate(f.subrange(28, 38)) == rate
            &&& comm_ct_at(f, 20, 18, false) is None
            &&& aiff_codec(bits, None) == aiff_pcm_codec(bits)
            &&& aiff_pcm_codec(bits) is Some
            &&& (s.codec_id == CodecId::PcmU8 || s.codec_id == CodecId::PcmS16be || s.codec_id == CodecId::PcmS24le
                || s.codec_id == CodecId::PcmS32le) ==> aiff_pcm_codec(bits) == Some(s.codec_id)
            &&& bytes_at(f, 54, n) == data
        }),
{
    let (ch, bits, rate) = aiff_comm_for(s);
    let n = data.len();
    let fr = AiffMuxer::frames_for(n as u32, (ch * (bits / 8)) as u16);
    lemma_aiff_file_shape(ch, bits, rate, data, (46 + n) as u32, fr, (8 + n) as u32);
    let f = aiff_muxed_file(s, data);
    assert(f == aiff_header_bytes(ch, bits, rate, (46 + n) as u32, fr, (8 + n) as u32) + data) by {
        reveal(aiff_muxed_file);
    }
    lemma_aiff_file_fields(ch, bits, rate, data, (46 + n) as u32, fr, (8 + n) as u32);
    law_extended_rate_round_trip(rate);
    lemma_aiff_opens(f, bits, n);
    lemma_bytes_at_subrange(f, 54, n);
}

} // verus!

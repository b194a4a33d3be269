//! WAV writer: a RIFF/WAVE header with a 16 byte `fmt ` chunk, the sample
//! data in a `data` chunk, and the two sizes filled in by the trailer.

use vstd::prelude::*;
use crate::error::{ErrorKind, TaoError, TaoResult, invalid_argument, unsupported};
use crate::format_id::FormatId;
use crate::io::{IoContext, SeekFrom, written};
use crate::endian::{le16_bytes, le32_bytes, push_le16, push_le32, push_tag};
use crate::media::{CodecId, Packet, Stream, StreamParams};
use crate::muxer::{Muxer, out_in_range};
use crate::packet_data::bytes_as_slice;
use crate::demuxers::wav::{
    riff_tag, wave_tag, fmt_tag, data_tag, WavFmt, wav_open_outcome, wav_scan, wav_codec, wav_fmt_at,
    le16_at, le32_at, WavScan,
};
use crate::endian::lemma_bytes_read_back;
use crate::io::{bytes_at, lemma_bytes_at_subrange};

verus! {

/// WAV format code and bit depth of a PCM codec; `None` for the others.
pub open spec fn wav_format_of(c: CodecId) -> Option<(u16, u16)> {
    match c {
        CodecId::PcmU8 => Some((1u16, 8u16)),
        CodecId::PcmS16le => Some((1u16, 16u16)),
        CodecId::PcmS24le => Some((1u16, 24u16)),
        CodecId::PcmS32le => Some((1u16, 32u16)),
        CodecId::PcmF32le => Some((3u16, 32u16)),
        _ => None,
    }
}

/// The 16 bytes of `fmt ` fields.
pub open spec fn wav_fmt_bytes(f: WavFmt) -> Seq<u8> {
    le16_bytes(f.audio_format) + le16_bytes(f.channels) + le32_bytes(f.sample_rate) + le32_bytes(
        f.byte_rate,
    ) + le16_bytes(f.block_align) + le16_bytes(f.bits_per_sample)
}

/// The 32 header bytes between the RIFF size and the data size: `WAVE`,
/// the `fmt ` chunk and the `data` tag.
pub open spec fn wav_header_middle(f: WavFmt) -> Seq<u8> {
    wave_tag() + fmt_tag() + le32_bytes(16) + wav_fmt_bytes(f) + data_tag()
}

/// The 44 byte header of a WAV file.
#[verifier::opaque]
pub open spec fn wav_header_bytes(f: WavFmt, riff_size: u32, data_size: u32) -> Seq<u8> {
    riff_tag() + le32_bytes(riff_size) + wav_header_middle(f) + le32_bytes(data_size)
}

/// Whether `write_header` would overflow on these streams: the block
/// alignment of a PCM audio stream must fit in a `u16`, and its byte rate in
/// a `u32`.
pub open spec fn wav_header_fits(streams: Seq<Stream>) -> bool {
    streams.len() == 1 && streams[0].params is Audio && wav_format_of(streams[0].codec_id) is Some
        ==> ({
        let a = streams[0].params->Audio_0;
        let ch = a.channel_layout.channels as u16;
        let bits = wav_format_of(streams[0].codec_id)->Some_0.1;
        let ba = ch * (bits / 8);
        ba <= 0xFFFF && a.sample_rate * ba <= 0xFFFF_FFFF
    })
}

/// The `fmt ` fields that `write_header` writes for the stream `s`.
pub open spec fn wav_fmt_for(s: Stream) -> WavFmt {
    let a = s.params->Audio_0;
    let (fmt, bits) = wav_format_of(s.codec_id)->Some_0;
    let ch = a.channel_layout.channels as u16;
    let ba = (ch * (bits / 8)) as u16;
    WavFmt {
        audio_format: fmt,
        channels: ch,
        sample_rate: a.sample_rate,
        byte_rate: (a.sample_rate * ba) as u32,
        block_align: ba,
        bits_per_sample: bits,
    }
}

/// The header that `write_header` writes for the stream `s`, sizes 0.
pub open spec fn wav_header_for(s: Stream) -> Seq<u8> {
    wav_header_bytes(wav_fmt_for(s), 0, 0)
}

/// Writer of WAV files.
pub struct WavMuxer {
    riff_size_offset: u64,
    data_size_offset: u64,
    data_written: u64,
}

impl WavMuxer {
    /// Where the RIFF size is patched.
    pub closed spec fn riff_size_at(&self) -> u64 {
        self.riff_size_offset
    }

    /// Where the data size is patched.
    pub closed spec fn data_size_at(&self) -> u64 {
        self.data_size_offset
    }

    /// Bytes of sample data written so far.
    pub closed spec fn data_count(&self) -> u64 {
        self.data_written
    }

    /// A muxer before `write_header`.
    pub fn new() -> (r: Self)
        ensures
            r.riff_size_at() == 0,
            r.data_size_at() == 0,
            r.data_count() == 0,
    {
        WavMuxer { riff_size_offset: 0, data_size_offset: 0, data_written: 0 }
    }

    /// A boxed muxer, for a registry.
    pub fn create() -> (r: TaoResult<Box<dyn Muxer>>)
        ensures
            r matches Ok(m) && m.format_kind() == FormatId::Wav,
    {
        Ok(Box::new(WavMuxer::new()))
    }

    /// WAV format code and bit depth of a codec.
    fn resolve_wav_format(codec_id: CodecId) -> (r: TaoResult<(u16, u16)>)
        ensures
            match wav_format_of(codec_id) {
                Some(v) => r == Ok::<(u16, u16), TaoError>(v),
                None => r matches Err(e) && e.kind() == ErrorKind::Unsupported,
            },
    {
        match codec_id {
            CodecId::PcmU8 => Ok((1, 8)),
            CodecId::PcmS16le => Ok((1, 16)),
            CodecId::PcmS24le => Ok((1, 24)),
            CodecId::PcmS32le => Ok((1, 32)),
            CodecId::PcmF32le => Ok((3, 32)),
            _ => Err(unsupported("WAV takes PCM codecs only")),
        }
    }

    /// What `write_header` does: for one PCM audio stream, writes the 44
    /// byte header (sizes 0) at the cursor; otherwise fails and writes
    /// nothing.
    pub open spec fn header_post(old_self: Self, new_self: Self, old_io: IoContext, new_io: IoContext, streams: Seq<Stream>, r: TaoResult<()>) -> bool {
        if streams.len() != 1 || !(streams[0].params is Audio) {
            r matches Err(e) && e.kind() == ErrorKind::InvalidArgument && new_io == old_io && new_self == old_self
        } else if wav_format_of(streams[0].codec_id) is None {
            r matches Err(e) && e.kind() == ErrorKind::Unsupported && new_io == old_io && new_self == old_self
        } else {
            &&& r is Ok
            &&& new_io.contents() == written(old_io.contents(), old_io.cursor(), wav_header_for(streams[0]))
            &&& new_io.cursor() == old_io.cursor() + 44
            &&& new_self.riff_size_at() == 4
            &&& new_self.data_size_at() == 40
            &&& new_self.data_count() == 0
        }
    }

    /// Writes the header for a single PCM audio stream.
    pub fn write_wav_header(&mut self, io: &mut IoContext, streams: &[Stream]) -> (r: TaoResult<()>)
        requires
            out_in_range(*old(io)),
            wav_header_fits(streams@),
        ensures
            Self::header_post(*old(self), *final(self), *old(io), *final(io), streams@, r),
    {
        if streams.len() != 1 {
            return Err(invalid_argument("WAV takes exactly one audio stream"));
        }
        let stream = &streams[0];
        let audio = match &stream.params {
            StreamParams::Audio(a) => a,
            _ => {
                return Err(invalid_argument("WAV takes audio streams only"));
            },
        };
        let (audio_format, bits_per_sample) = Self::resolve_wav_format(stream.codec_id)?;
        let channels = audio.channel_layout.channels as u16;
        let sample_rate = audio.sample_rate;
        let block_align = channels * (bits_per_sample / 8);
        let byte_rate = sample_rate * (block_align as u32);
        let mut header: Vec<u8> = Vec::new();
        push_tag(&mut header, &[0x52u8, 0x49, 0x46, 0x46]);
        push_le32(&mut header, 0);
        push_tag(&mut header, &[0x57u8, 0x41, 0x56, 0x45]);
        push_tag(&mut header, &[0x66u8, 0x6D, 0x74, 0x20]);
        push_le32(&mut header, 16);
        push_le16(&mut header, audio_format);
        push_le16(&mut header, channels);
        push_le32(&mut header, sample_rate);
        push_le32(&mut header, byte_rate);
        push_le16(&mut header, block_align);
        push_le16(&mut header, bits_per_sample);
        push_tag(&mut header, &[0x64u8, 0x61, 0x74, 0x61]);
        push_le32(&mut header, 0);
        assert(header@ =~= wav_header_for(streams@[0])) by {
            reveal(wav_header_bytes);
        }
        io.write_all(header.as_slice())?;
        self.riff_size_offset = 4;
        self.data_size_offset = 40;
        self.data_written = 0;
        Ok(())
    }

    /// Appends the packet's bytes to the sample data.
    pub fn write_wav_packet(&mut self, io: &mut IoContext, packet: &Packet) -> (r: TaoResult<()>)
        requires
            out_in_range(*old(io)),
            packet.payload().len() <= 0x1_0000_0000_0000,
            old(self).data_count() + packet.payload().len() <= u64::MAX,
        ensures
            r is Ok,
            final(io).contents() == written(old(io).contents(), old(io).cursor(), packet.payload()),
            final(io).cursor() == old(io).cursor() + packet.payload().len(),
            final(self).data_count() == old(self).data_count() + packet.payload().len(),
            final(self).riff_size_at() == old(self).riff_size_at(),
            final(self).data_size_at() == old(self).data_size_at(),
    {
        let data = bytes_as_slice(&packet.data);
        io.write_all(data)?;
        self.data_written = self.data_written + data.len() as u64;
        Ok(())
    }

    /// Fills in the RIFF size (36 plus the data size) and the data size.
    pub fn write_wav_trailer(&mut self, io: &mut IoContext) -> (r: TaoResult<()>)
        requires
            out_in_range(*old(io)),
            old(self).riff_size_at() + 4 <= 0x1_0000_0000_0000,
            old(self).data_size_at() + 4 <= 0x1_0000_0000_0000,
            36 + (old(self).data_count() as u32) <= u32::MAX,
        ensures
            r is Ok,
            *final(self) == *old(self),
            final(io).contents() == written(
                written(old(io).contents(), old(self).riff_size_at() as nat, le32_bytes((36 + (old(self).data_count() as u32)) as u32)),
                old(self).data_size_at() as nat,
                le32_bytes(old(self).data_count() as u32),
            ),
            final(io).cursor() == old(self).data_size_at() + 4,
    {
        if !io.is_seekable() {
            return Ok(());
        }
        let data_size = self.data_written as u32;
        let riff_size = 36 + data_size;
        io.seek(SeekFrom::Start(self.riff_size_offset))?;
        io.write_u32_le(riff_size)?;
        io.seek(SeekFrom::Start(self.data_size_offset))?;
        io.write_u32_le(data_size)?;
        Ok(())
    }
}

impl Muxer for WavMuxer {
    open spec fn format_kind(&self) -> FormatId {
        FormatId::Wav
    }

    open spec fn header_admits(&self, streams: Seq<Stream>) -> bool {
        wav_header_fits(streams)
    }

    open spec fn packet_admits(&self, packet: Packet) -> bool {
        &&& packet.payload().len() <= 0x1_0000_0000_0000
        &&& self.data_count() + packet.payload().len() <= u64::MAX
    }

    open spec fn trailer_admits(&self) -> bool {
        &&& self.riff_size_at() + 4 <= 0x1_0000_0000_0000
        &&& self.data_size_at() + 4 <= 0x1_0000_0000_0000
        &&& 36 + (self.data_count() as u32) <= u32::MAX
    }

    fn format_id(&self) -> (r: FormatId)
        ensures
            r == FormatId::Wav,
    {
        FormatId::Wav
    }

    fn name(&self) -> (r: &'static str)
        ensures
            r@ == "wav"@,
    {
        "wav"
    }

    fn write_header(&mut self, io: &mut IoContext, streams: &[Stream]) -> (r: TaoResult<()>)
        ensures
            Self::header_post(*old(self), *final(self), *old(io), *final(io), streams@, r),
    {
        self.write_wav_header(io, streams)
    }

    fn write_packet(&mut self, io: &mut IoContext, packet: &Packet) -> (r: TaoResult<()>)
        ensures
            r is Ok,
            final(io).contents() == written(old(io).contents(), old(io).cursor(), packet.payload()),
            final(io).cursor() == old(io).cursor() + packet.payload().len(),
            final(self).data_count() == old(self).data_count() + packet.payload().len(),
    {
        self.write_wav_packet(io, packet)
    }

    fn write_trailer(&mut self, io: &mut IoContext) -> (r: TaoResult<()>)
        ensures
            r is Ok,
            final(io).contents() == written(
                written(old(io).contents(), old(self).riff_size_at() as nat, le32_bytes((36 + (old(self).data_count() as u32)) as u32)),
                old(self).data_size_at() as nat,
                le32_bytes(old(self).data_count() as u32),
            ),
    {
        self.write_wav_trailer(io)
    }
}

/// The file the muxer leaves for the stream `s` and the sample bytes
/// `data`: the header written with sizes 0 and the data after it, then the
/// two sizes patched in at offsets 4 and 40.
#[verifier::opaque]
pub open spec fn wav_muxed_file(s: Stream, data: Seq<u8>) -> Seq<u8> {
    written(
        written(wav_header_for(s) + data, 4, le32_bytes((36 + data.len()) as u32)),
        40,
        le32_bytes(data.len() as u32),
    )
}

proof fn lemma_fmt_bytes_read_back(f: WavFmt, x: Seq<u8>, p: int)
    requires
        0 <= p,
        p + 16 <= x.len(),
        x.subrange(p, p + 16) == wav_fmt_bytes(f),
    ensures
        wav_fmt_at(x, p) == f,
{
    let fb = wav_fmt_bytes(f);
    assert(forall|k: int| 0 <= k < 16 ==> x[p + k] == #[trigger] fb[k]) by {
        assert forall|k: int| 0 <= k < 16 implies x[p + k] == #[trigger] fb[k] by {
            assert(x.subrange(p, p + 16)[k] == x[p + k]);
        }
    }
    lemma_bytes_read_back(f.audio_format, f.sample_rate);
    lemma_bytes_read_back(f.channels, f.byte_rate);
    lemma_bytes_read_back(f.block_align, 0);
    lemma_bytes_read_back(f.bits_per_sample, 0);
    assert(x[p] == fb[0] && x[p + 1] == fb[1]);
    assert(x[p + 2] == fb[2] && x[p + 3] == fb[3]);
    assert(x[p + 4] == fb[4] && x[p + 5] == fb[5] && x[p + 6] == fb[6] && x[p + 7] == fb[7]);
    assert(x[p + 8] == fb[8] && x[p + 9] == fb[9] && x[p + 10] == fb[10] && x[p + 11] == fb[11]);
    assert(x[p + 12] == fb[12] && x[p + 13] == fb[13]);
    assert(x[p + 14] == fb[14] && x[p + 15] == fb[15]);
}

proof fn lemma_wav_file_shape(f: WavFmt, data: Seq<u8>, a: u32, b: u32)
    ensures
        written(written(wav_header_bytes(f, 0, 0) + data, 4, le32_bytes(a)), 40, le32_bytes(b))
            =~= wav_header_bytes(f, a, b) + data,
{
    reveal(wav_header_bytes);
    let m = wav_header_middle(f);
    assert(m.len() == 32);
    let x0 = wav_header_bytes(f, 0, 0) + data;
    let x1 = written(x0, 4, le32_bytes(a));
    assert(x0.subrange(0, 4) =~= riff_tag());
    assert(x0.subrange(8, x0.len() as int) =~= m + le32_bytes(0) + data);
    assert(x1 =~= riff_tag() + le32_bytes(a) + m + le32_bytes(0) + data);
    let x2 = written(x1, 40, le32_bytes(b));
    assert(x1.subrange(0, 40) =~= riff_tag() + le32_bytes(a) + m);
    assert(x1.subrange(44, x1.len() as int) =~= data);
}

/// A whole WAV file: the header with RIFF size `a`, then the data.
#[verifier::opaque]
pub open spec fn wav_file_bytes(f: WavFmt, a: u32, data: Seq<u8>) -> Seq<u8> {
    wav_header_bytes(f, a, data.len() as u32) + data
}

proof fn lemma_wav_file_fields(f: WavFmt, data: Seq<u8>, a: u32)
    ensures
        ({
            let file = wav_file_bytes(f, a, data);
            &&& file.len() == 44 + data.len()
            &&& file.subrange(0, 4) == riff_tag()
            &&& file.subrange(8, 12) == wave_tag()
            &&& file.subrange(12, 16) == fmt_tag()
            &&& file.subrange(16, 20) == le32_bytes(16)
            &&& file.subrange(20, 36) == wav_fmt_bytes(f)
            &&& file.subrange(36, 40) == data_tag()
            &&& file.subrange(40, 44) == le32_bytes(data.len() as u32)
            &&& file.subrange(44, file.len() as int) == data
        }),
{
    reveal(wav_header_bytes);
    reveal(wav_file_bytes);
    let file = wav_header_bytes(f, a, data.len() as u32) + data;
    let m = wav_header_middle(f);
    assert(file.subrange(8, 40) =~= m);
    assert(m.subrange(0, 4) =~= wave_tag());
    assert(m.subrange(4, 8) =~= fmt_tag());
    assert(m.subrange(8, 12) =~= le32_bytes(16));
    assert(m.subrange(12, 28) =~= wav_fmt_bytes(f));
    assert(m.subrange(28, 32) =~= data_tag());
    assert(file.subrange(0, 4) =~= riff_tag());
    assert(file.subrange(8, 12) =~= m.subrange(0, 4));
    assert(file.subrange(12, 16) =~= m.subrange(4, 8));
    assert(file.subrange(16, 20) =~= m.subrange(8, 12));
    assert(file.subrange(20, 36) =~= m.subrange(12, 28));
    assert(file.subrange(36, 40) =~= m.subrange(28, 32));
    assert(file.subrange(40, 44) =~= le32_bytes(data.len() as u32));
    assert(file.subrange(44, file.len() as int) =~= data);
}

proof fn lemma_wav_codec_back(c: CodecId)
    requires
        wav_format_of(c) is Some,
    ensures
        wav_codec(wav_format_of(c)->Some_0.0, wav_format_of(c)->Some_0.1) == Some(c),
{
}

proof fn lemma_wav_open_fields(file: Seq<u8>, f: WavFmt, n: nat)
    requires
        file.len() == 44 + n,
        n <= u32::MAX,
        file.subrange(0, 4) == riff_tag(),
        file.subrange(8, 12) == wave_tag(),
        file.subrange(12, 16) == fmt_tag(),
        file.subrange(16, 20) == le32_bytes(16),
        file.subrange(20, 36) == wav_fmt_bytes(f),
        file.subrange(36, 40) == data_tag(),
        file.subrange(40, 44) == le32_bytes(n as u32),
    ensures
        wav_open_outcome(file, 0) == (match wav_codec(f.audio_format, f.bits_per_sample) {
            Some(_) => Ok::<(WavFmt, int, u64), crate::error::ErrorKind>((f, 44, n as u64)),
            None => Err(crate::error::ErrorKind::Unsupported),
        }),
{
    lemma_bytes_read_back(0, 16);
    lemma_bytes_read_back(0, n as u32);
    lemma_fmt_bytes_read_back(f, file, 20);
    assert(le32_at(file, 16) == 16) by {
        assert(file.subrange(16, 20)[0] == file[16]);
        assert(file.subrange(16, 20)[1] == file[17]);
        assert(file.subrange(16, 20)[2] == file[18]);
        assert(file.subrange(16, 20)[3] == file[19]);
    }
    assert(le32_at(file, 40) == n) by {
        assert(file.subrange(40, 44)[0] == file[40]);
        assert(file.subrange(40, 44)[1] == file[41]);
        assert(file.subrange(40, 44)[2] == file[42]);
        assert(file.subrange(40, 44)[3] == file[43]);
    }
    assert(data_tag() != fmt_tag()) by {
        assert(data_tag()[0] != fmt_tag()[0]);
    }
    assert(wav_scan(file, 36, Some(f)) == WavScan::Found(f, 44, n as u64));
    assert(wav_scan(file, 12, None) == WavScan::Found(f, 44, n as u64));
}

proof fn lemma_wav_file_opens(f: WavFmt, data: Seq<u8>)
    requires
        data.len() + 36 <= u32::MAX,
    ensures
        ({
            let file = wav_file_bytes(f, (36 + data.len()) as u32, data);
            &&& wav_open_outcome(file, 0) == (match wav_codec(f.audio_format, f.bits_per_sample) {
                Some(_) => Ok::<(WavFmt, int, u64), crate::error::ErrorKind>((f, 44, data.len() as u64)),
                None => Err(crate::error::ErrorKind::Unsupported),
            })
            &&& bytes_at(file, 44, data.len()) == data
        }),
{
    let n = data.len();
    let file = wav_file_bytes(f, (36 + n) as u32, data);
    lemma_wav_file_fields(f, data, (36 + n) as u32);
    lemma_wav_open_fields(file, f, n);
    lemma_bytes_at_subrange(file, 44, n);
}

/// Writing a WAV file and opening it again gives back the stream's format,
/// the data at offset 44 and its size: for one PCM audio stream whose
/// header fits and sample data of at most 2^32 - 37 bytes, opening the file
/// the muxer leaves finds the format written, a codec equal to the stream's,
/// and the data bytes unchanged.
pub proof fn law_wav_write_then_open(s: Stream, data: Seq<u8>)
    requires
        s.params is Audio,
        wav_format_of(s.codec_id) is Some,
        wav_header_fits(seq![s]),
        data.len() + 36 <= u32::MAX,
    ensures
        wav_open_outcome(wav_muxed_file(s, data), 0) == Ok::<(WavFmt, int, u64), crate::error::ErrorKind>(
            (wav_fmt_for(s), 44, data.len() as u64),
        ),
        wav_codec(wav_fmt_for(s).audio_format, wav_fmt_for(s).bits_per_sample) == Some(s.codec_id),
        bytes_at(wav_muxed_file(s, data), 44, data.len()) == data,
{
    let f = wav_fmt_for(s);
    let n = data.len();
    lemma_wav_file_shape(f, data, (36 + n) as u32, n as u32);
    assert(wav_muxed_file(s, data) == wav_file_bytes(f, (36 + n) as u32, data)) by {
        reveal(wav_muxed_file);
        reveal(wav_file_bytes);
    }
    lemma_wav_codec_back(s.codec_id);
    lemma_wav_file_opens(f, data);
}

} // verus!

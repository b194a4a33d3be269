//! AAC ADTS writer: each packet becomes one ADTS frame, a 7 byte header
//! (no CRC) before the raw AAC data.

use vstd::prelude::*;
use crate::error::{ErrorKind, TaoError, TaoResult, invalid_argument, invalid_data};
use crate::format_id::FormatId;
use crate::io::{IoContext, written};
use crate::media::{CodecId, Packet, Stream, StreamParams};
use crate::muxer::{Muxer, out_in_range};
use crate::packet_data::bytes_as_slice;
use crate::demuxers::aac::{AdtsHeader, adts_header, aac_sample_rate};

verus! {

/// The sampling frequency index of a sample rate (ISO 14496-3).
pub open spec fn adts_rate_index(sr: u32) -> Option<u8> {
    if sr == 96000 { Some(0u8) }
    else if sr == 88200 { Some(1u8) }
    else if sr == 64000 { Some(2u8) }
    else if sr == 48000 { Some(3u8) }
    else if sr == 44100 { Some(4u8) }
    else if sr == 32000 { Some(5u8) }
    else if sr == 24000 { Some(6u8) }
    else if sr == 22050 { Some(7u8) }
    else if sr == 16000 { Some(8u8) }
    else if sr == 12000 { Some(9u8) }
    else if sr == 11025 { Some(10u8) }
    else if sr == 8000 { Some(11u8) }
    else if sr == 7350 { Some(12u8) }
    else { None }
}

/// The sampling frequency indexes and the rates agree both ways: the rate
/// read for the index written for a rate is that rate, each of the 13
/// indexes is the one written for the rate it reads as, and the rates fall
/// as the index grows (96000 Hz down to 7350 Hz).
pub proof fn law_adts_rate_round_trip(sr: u32, i: int, j: int)
    ensures
        adts_rate_index(sr) matches Some(k) ==> aac_sample_rate(k as int) == sr,
        0 <= i < 13 ==> adts_rate_index(aac_sample_rate(i)) == Some(i as u8),
        0 <= i < j < 13 ==> aac_sample_rate(i) > aac_sample_rate(j),
{
}

/// Looks up the sampling frequency index of `sample_rate`.
pub fn sample_rate_to_index(sample_rate: u32) -> (r: TaoResult<u8>)
    ensures
        match adts_rate_index(sample_rate) {
            Some(i) => r == Ok::<u8, TaoError>(i),
            None => r matches Err(e) && e.kind() == ErrorKind::InvalidArgument,
        },
{
    match sample_rate {
        96000 => Ok(0),
        88200 => Ok(1),
        64000 => Ok(2),
        48000 => Ok(3),
        44100 => Ok(4),
        32000 => Ok(5),
        24000 => Ok(6),
        22050 => Ok(7),
        16000 => Ok(8),
        12000 => Ok(9),
        11025 => Ok(10),
        8000 => Ok(11),
        7350 => Ok(12),
        _ => Err(invalid_argument("AAC: unsupported sample rate")),
    }
}

/// The channel configuration of a channel count: 1 to 7 as they are.
pub fn channels_to_config(channels: u32) -> (r: TaoResult<u8>)
    ensures
        1 <= channels <= 7 ==> r == Ok::<u8, TaoError>(channels as u8),
        !(1 <= channels <= 7) ==> (r matches Err(e) && e.kind() == ErrorKind::InvalidArgument),
{
    if 1 <= channels && channels <= 7 {
        Ok(channels as u8)
    } else {
        Err(invalid_argument("AAC: unsupported channel count"))
    }
}

/// The 7 header bytes written before `n` bytes of AAC data (ISO 14496-3
/// ADTS): sync word, MPEG-4, layer 0, no CRC; then the profile, the rate
/// index and the top bit of the channel configuration; its two low bits and
/// the top two bits of the 13 bit frame length `7 + n`; the middle eight
/// bits; the low three bits under the top of a full buffer fullness
/// (0x7FF); the rest of it and no extra raw data blocks.
pub open spec fn adts_frame_header(n: nat, sri: u8, cc: u8, profile: u8) -> Seq<u8> {
    let fl = (7 + n) as u32;
    seq![
        0xFFu8,
        0xF1u8,
        (profile << 6u8) | (sri << 2u8) | ((cc >> 2u8) & 1u8),
        ((cc & 3u8) << 6u8) | (((fl >> 11u32) & 3u32) as u8),
        ((fl >> 3u32) & 0xFFu32) as u8,
        (((fl & 7u32) << 5u32) as u8) | 0x1Fu8,
        0xFCu8,
    ]
}

/// The header written for a frame the format can carry (at most 8191
/// bytes) with settings in their ranges reads back, through the ADTS header
/// parser, as the frame length, rate index, channel configuration and
/// profile it was written with.
pub proof fn lemma_adts_header_reads_back(n: nat, sri: u8, cc: u8, profile: u8)
    requires
        7 + n <= 8191,
        sri < 13,
        cc <= 7,
        profile < 4,
    ensures
        adts_header(adts_frame_header(n, sri, cc, profile)) == Some(
            AdtsHeader {
                profile,
                sampling_frequency_index: sri,
                channel_configuration: cc,
                frame_length: (7 + n) as u16,
                has_crc: false,
                header_size: 7,
            },
        ),
{
    let fl = (7 + n) as u32;
    let h = adts_frame_header(n, sri, cc, profile);
    let b2 = (profile << 6u8) | (sri << 2u8) | ((cc >> 2u8) & 1u8);
    let b3 = ((cc & 3u8) << 6u8) | (((fl >> 11u32) & 3u32) as u8);
    let b4 = ((fl >> 3u32) & 0xFFu32) as u8;
    let b5 = (((fl & 7u32) << 5u32) as u8) | 0x1Fu8;
    assert(b2 / 64 == profile && (b2 / 4) % 16 == sri && (b2 % 2) * 4 + b3 / 64 == cc && (b3 % 4)
        * 2048 + b4 * 8 + b5 / 32 == fl) by (bit_vector)
        requires
            b2 == (profile << 6u8) | (sri << 2u8) | ((cc >> 2u8) & 1u8),
            b3 == ((cc & 3u8) << 6u8) | (((fl >> 11u32) & 3u32) as u8),
            b4 == ((fl >> 3u32) & 0xFFu32) as u8,
            b5 == (((fl & 7u32) << 5u32) as u8) | 0x1Fu8,
            fl <= 8191,
            sri < 13,
            cc <= 7,
            profile < 4,
    ;
    assert(h[2] == b2 && h[3] == b3 && h[4] == b4 && h[5] == b5);
}

/// Writer of raw AAC in ADTS frames.
pub struct AacAdtsMuxer {
    sample_rate_index: u8,
    channel_config: u8,
    profile: u8,
}

/// The writer's settings: rate index, channel configuration, profile.
pub struct AdtsSettings {
    pub sample_rate_index: u8,
    pub channel_config: u8,
    pub profile: u8,
}

impl AacAdtsMuxer {
    /// The settings.
    pub closed spec fn settings(&self) -> AdtsSettings {
        AdtsSettings {
            sample_rate_index: self.sample_rate_index,
            channel_config: self.channel_config,
            profile: self.profile,
        }
    }

    /// A writer before its header: AAC LC.
    pub fn new() -> (r: Self)
        ensures
            r.settings() == (AdtsSettings { sample_rate_index: 0, channel_config: 0, profile: 1 }),
    {
        AacAdtsMuxer { sample_rate_index: 0, channel_config: 0, profile: 1 }
    }

    /// A boxed writer, for a registry.
    pub fn create() -> (r: TaoResult<Box<dyn Muxer>>)
        ensures
            r matches Ok(m) && m.format_kind() == FormatId::AacAdts,
    {
        Ok(Box::new(AacAdtsMuxer::new()))
    }

    /// What `write_header` does: for one AAC audio stream with a known
    /// rate and 1 to 7 channels, takes the rate index and channel
    /// configuration; nothing is written. The rate index is taken before
    /// the channel count is checked.
    pub open spec fn header_post(old_self: Self, new_self: Self, streams: Seq<Stream>, r: TaoResult<()>) -> bool {
        if !(streams.len() == 1 && streams[0].codec_id == CodecId::Aac && streams[0].params is Audio) {
            r matches Err(e) && e.kind() == ErrorKind::InvalidArgument && new_self == old_self
        } else {
            let a = streams[0].params->Audio_0;
            match adts_rate_index(a.sample_rate) {
                None => r matches Err(e) && e.kind() == ErrorKind::InvalidArgument && new_self == old_self,
                Some(i) => if 1 <= a.channel_layout.channels <= 7 {
                    &&& r is Ok
                    &&& new_self.settings() == (AdtsSettings {
                        sample_rate_index: i,
                        channel_config: a.channel_layout.channels as u8,
                        ..old_self.settings()
                    })
                } else {
                    &&& r matches Err(e) && e.kind() == ErrorKind::InvalidArgument
                    &&& new_self.settings() == (AdtsSettings { sample_rate_index: i, ..old_self.settings() })
                },
            }
        }
    }
}

impl Muxer for AacAdtsMuxer {
    open spec fn format_kind(&self) -> FormatId {
        FormatId::AacAdts
    }

    open spec fn header_admits(&self, streams: Seq<Stream>) -> bool {
        true
    }

    open spec fn packet_admits(&self, packet: Packet) -> bool {
        packet.payload().len() <= 0x1_0000_0000_0000
    }

    open spec fn trailer_admits(&self) -> bool {
        true
    }

    fn format_id(&self) -> (r: FormatId)
        ensures
            r == FormatId::AacAdts,
    {
        FormatId::AacAdts
    }

    fn name(&self) -> (r: &'static str)
        ensures
            r@ == "aac"@,
    {
        "aac"
    }

    fn write_header(&mut self, io: &mut IoContext, streams: &[Stream]) -> (r: TaoResult<()>)
        ensures
            *final(io) == *old(io),
            Self::header_post(*old(self), *final(self), streams@, r),
    {
        if streams.len() == 0 {
            return Err(invalid_argument("AAC ADTS needs a stream"));
        }
        if streams.len() != 1 {
            return Err(invalid_argument("AAC ADTS holds one audio stream"));
        }
        let stream = &streams[0];
        if stream.codec_id != CodecId::Aac {
            return Err(invalid_argument("AAC ADTS needs the AAC codec"));
        }
        let audio = match &stream.params {
            StreamParams::Audio(a) => a,
            _ => {
                return Err(invalid_argument("AAC ADTS takes audio streams only"));
            },
        };
        self.sample_rate_index = sample_rate_to_index(audio.sample_rate)?;
        self.channel_config = channels_to_config(audio.channel_layout.channels)?;
        Ok(())
    }

    /// Writes an ADTS header and the packet's bytes; an empty packet
    /// writes nothing, and one whose frame would pass 8191 bytes fails with
    /// `InvalidData` and writes nothing.
    fn write_packet(&mut self, io: &mut IoContext, packet: &Packet) -> (r: TaoResult<()>)
        ensures
            *final(self) == *old(self),
            packet.payload().len() == 0 ==> r is Ok && *final(io) == *old(io),
            7 + packet.payload().len() > 8191 ==> (r matches Err(e) && e.kind() == ErrorKind::InvalidData
                && *final(io) == *old(io)),
            0 < packet.payload().len() && 7 + packet.payload().len() <= 8191 ==> {
                &&& r is Ok
                &&& final(io).contents() == written(
                    old(io).contents(),
                    old(io).cursor(),
                    adts_frame_header(
                        packet.payload().len(),
                        old(self).settings().sample_rate_index,
                        old(self).settings().channel_config,
                        old(self).settings().profile,
                    ) + packet.payload(),
                )
                &&& final(io).cursor() == old(io).cursor() + 7 + packet.payload().len()
            },
            0 < packet.payload().len() && 7 + packet.payload().len() <= 8191
                && old(self).settings().sample_rate_index < 13 && old(self).settings().channel_config <= 7
                && old(self).settings().profile < 4 ==> adts_header(
                adts_frame_header(
                    packet.payload().len(),
                    old(self).settings().sample_rate_index,
                    old(self).settings().channel_config,
                    old(self).settings().profile,
                ),
            ) == Some(
                AdtsHeader {
                    profile: old(self).settings().profile,
                    sampling_frequency_index: old(self).settings().sample_rate_index,
                    channel_configuration: old(self).settings().channel_config,
                    frame_length: (7 + packet.payload().len()) as u16,
                    has_crc: false,
                    header_size: 7,
                },
            ),
    {
        let data = bytes_as_slice(&packet.data);
        let n = data.len();
        if n == 0 {
            return Ok(());
        }
        let frame_length = 7 + n;
        if frame_length > 8191 {
            return Err(invalid_data("AAC: frame too long for ADTS"));
        }
        let fl = frame_length as u32;
        let (profile, sri, cc) = (self.profile, self.sample_rate_index, self.channel_config);
        let mut header: Vec<u8> = Vec::new();
        header.push(0xFF);
        header.push(0xF1);
        header.push((profile << 6u8) | (sri << 2u8) | ((cc >> 2u8) & 1u8));
        header.push(((cc & 3u8) << 6u8) | (((fl >> 11u32) & 3u32) as u8));
        header.push(((fl >> 3u32) & 0xFFu32) as u8);
        header.push((((fl & 7u32) << 5u32) as u8) | 0x1Fu8);
        header.push(0xFC);
        proof {
            if sri < 13 && cc <= 7 && profile < 4 {
                lemma_adts_header_reads_back(n as nat, sri, cc, profile);
            }
        }
        assert(header@ =~= adts_frame_header(n as nat, sri, cc, profile));
        let ghost d0 = io.contents();
        let ghost c0 = io.cursor();
        io.write_all(header.as_slice())?;
        io.write_all(data)?;
        proof {
            crate::io::lemma_written_concat(d0, c0, header@, data@);
        }
        Ok(())
    }

    /// Nothing to finish.
    fn write_trailer(&mut self, io: &mut IoContext) -> (r: TaoResult<()>)
        ensures
            r is Ok,
            *final(io) == *old(io),
    {
        Ok(())
    }
}

} // verus!

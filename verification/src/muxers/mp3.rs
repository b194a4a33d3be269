//! MP3 writer: a bare stream of MPEG audio frames, with no container
//! header or trailer.

use vstd::prelude::*;
use crate::error::{ErrorKind, TaoError, TaoResult, invalid_argument};
use crate::format_id::FormatId;
use crate::io::{IoContext, written};
use crate::media::{CodecId, Packet, Stream, StreamParams};
use crate::muxer::{Muxer, out_in_range};
use crate::packet_data::bytes_as_slice;

verus! {

/// Writer of bare MP3 streams.
pub struct Mp3Muxer {
    header_written: bool,
}

impl Mp3Muxer {
    /// Whether the header was accepted.
    pub closed spec fn started(&self) -> bool {
        self.header_written
    }

    /// A writer before its header.
    pub fn new() -> (r: Self)
        ensures
            !r.started(),
    {
        Mp3Muxer { header_written: false }
    }

    /// A boxed writer, for a registry.
    pub fn create() -> (r: TaoResult<Box<dyn Muxer>>)
        ensures
            r matches Ok(m) && m.format_kind() == FormatId::Mp3Container,
    {
        Ok(Box::new(Mp3Muxer::new()))
    }
}

/// Whether `write_header` accepts the streams: exactly one MP3 audio
/// stream.
pub open spec fn mp3_streams_ok(streams: Seq<Stream>) -> bool {
    streams.len() == 1 && streams[0].codec_id == CodecId::Mp3 && streams[0].params is Audio
}

impl Muxer for Mp3Muxer {
    open spec fn format_kind(&self) -> FormatId {
        FormatId::Mp3Container
    }

    open spec fn header_admits(&self, streams: Seq<Stream>) -> bool {
        true
    }

    open spec fn packet_admits(&self, packet: Packet) -> bool {
        packet.payload().len() <= 0x1_0000_0000_0000
    }

    open spec fn trailer_admits(&self) -> bool {
        true
    }

    fn format_id(&self) -> (r: FormatId)
        ensures
            r == FormatId::Mp3Container,
    {
        FormatId::Mp3Container
    }

    fn name(&self) -> (r: &'static str)
        ensures
            r@ == "mp3"@,
    {
        "mp3"
    }

    /// Checks the streams; nothing is written.
    fn write_header(&mut self, io: &mut IoContext, streams: &[Stream]) -> (r: TaoResult<()>)
        ensures
            *final(io) == *old(io),
            mp3_streams_ok(streams@) ==> r is Ok && final(self).started(),
            !mp3_streams_ok(streams@) ==> (r matches Err(e) && e.kind() == ErrorKind::InvalidArgument
                && *final(self) == *old(self)),
    {
        if streams.len() == 0 {
            return Err(invalid_argument("MP3 needs a stream"));
        }
        if streams.len() != 1 {
            return Err(invalid_argument("a bare MP3 stream holds one audio stream"));
        }
        let stream = &streams[0];
        if stream.codec_id != CodecId::Mp3 {
            return Err(invalid_argument("MP3 needs the MP3 codec"));
        }
        match &stream.params {
            StreamParams::Audio(_) => {},
            _ => {
                return Err(invalid_argument("MP3 takes audio streams only"));
            },
        }
        self.header_written = true;
        Ok(())
    }

    /// Writes the packet's bytes as they are.
    fn write_packet(&mut self, io: &mut IoContext, packet: &Packet) -> (r: TaoResult<()>)
        ensures
            r is Ok,
            *final(self) == *old(self),
            final(io).contents() == written(old(io).contents(), old(io).cursor(), packet.payload()),
            final(io).cursor() == old(io).cursor() + packet.payload().len(),
    {
        let data = bytes_as_slice(&packet.data);
        if data.len() == 0 {
            assert(packet.payload() =~= seq![]);
            assert(written(io.contents(), io.cursor(), seq![]) =~= io.contents());
            return Ok(());
        }
        io.write_all(data)?;
        Ok(())
    }

    /// Nothing to finish.
    fn write_trailer(&mut self, io: &mut IoContext) -> (r: TaoResult<()>)
        ensures
            r is Ok,
            *final(io) == *old(io),
    {
        Ok(())
    }
}

} // verus!

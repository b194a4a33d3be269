//! The muxer interface: write a container header for a set of streams,
//! then packets, then the trailer.

use vstd::prelude::*;
use crate::error::TaoResult;
use crate::format_id::FormatId;
use crate::io::IoContext;
use crate::media::{Packet, Stream};

verus! {

/// Whether an I/O context is within the range the muxers work on: the
/// output and the cursor are bounded, and positions well past them fit in
/// a `usize` (a 64-bit target).
pub open spec fn out_in_range(io: IoContext) -> bool {
    &&& io.contents().len() <= 0x1_0000_0000_0000
    &&& io.cursor() <= 0x1_0000_0000_0000
    &&& 0x40_0000_0000_0000 <= usize::MAX
}

/// Whether an I/O context is in the range the muxers work on, computed.
pub fn out_admitted(io: &IoContext) -> (b: bool)
    ensures
        b == out_in_range(*io),
{
    io.data().len() as u64 <= 0x1_0000_0000_0000 && (io.tell() as u64) <= 0x1_0000_0000_0000 && (usize::MAX as u64)
        >= 0x40_0000_0000_0000
}

/// A container writer.
pub trait Muxer {
    /// Whether `write_header` accepts these streams; outside it the
    /// muxer's arithmetic would overflow.
    spec fn header_admits(&self, streams: Seq<Stream>) -> bool;

    /// Whether `write_packet` accepts this packet in the current state.
    spec fn packet_admits(&self, packet: Packet) -> bool;

    /// Whether `write_trailer` can run in the current state.
    spec fn trailer_admits(&self) -> bool;

    /// The container format this writer produces.
    spec fn format_kind(&self) -> FormatId;

    /// The container format.
    fn format_id(&self) -> (r: FormatId)
        ensures
            r == self.format_kind(),
    ;

    /// Short name of the muxer.
    fn name(&self) -> &'static str;

    /// Writes the container header for `streams`.
    fn write_header(&mut self, io: &mut IoContext, streams: &[Stream]) -> TaoResult<()>
        requires
            out_in_range(*old(io)),
            old(self).header_admits(streams@),
    ;

    /// Writes one packet.
    fn write_packet(&mut self, io: &mut IoContext, packet: &Packet) -> TaoResult<()>
        requires
            out_in_range(*old(io)),
            old(self).packet_admits(*packet),
    ;

    /// Finishes the file (sizes, indexes).
    fn write_trailer(&mut self, io: &mut IoContext) -> TaoResult<()>
        requires
            out_in_range(*old(io)),
            old(self).trailer_admits(),
    ;
}

} // verus!

//! The demuxer interface: open a container, list its streams, read its
//! packets in order, seek.

use vstd::prelude::*;
use crate::error::TaoResult;
use crate::format_id::FormatId;
use crate::io::IoContext;
use crate::media::{Packet, SeekFlags, Stream};

verus! {

/// Largest input, in bytes, that the demuxers take: room is left above it
/// for chunk sizes read from the data to be added to positions.
pub const MAX_INPUT_LEN: u64 = 0x1_0000_0000_0000;

/// Whether an I/O context is within the range the demuxers work on: the
/// input and the cursor are bounded, and positions up to well past them
/// fit in a `usize` (a 64-bit target).
pub open spec fn io_in_range(io: IoContext) -> bool {
    &&& io.contents().len() <= MAX_INPUT_LEN
    &&& io.cursor() <= 0x10_0000_0000_0000
    &&& 0x40_0000_0000_0000 <= usize::MAX
}

/// Whether an I/O context is in the range the demuxers work on, computed.
pub fn io_admitted(io: &IoContext) -> (b: bool)
    ensures
        b == io_in_range(*io),
{
    io.data().len() as u64 <= MAX_INPUT_LEN && (io.tell() as u64) <= 0x10_0000_0000_0000 && (
    usize::MAX as u64) >= 0x40_0000_0000_0000
}

/// A container reader.
pub trait Demuxer {
    /// Whether `seek` accepts `timestamp` for `stream_index`; inputs outside
    /// it would overflow the demuxer's arithmetic.
    spec fn seek_admits(&self, stream_index: usize, timestamp: i64) -> bool;

    /// Whether `read_packet` can run in this state without overflowing the
    /// demuxer's counters.
    spec fn read_admits(&self) -> bool;

    /// Whether `open` accepts this input: outside it the reader would meet
    /// a malformed size it cannot compute with.
    spec fn open_admits(&self, io: IoContext) -> bool;

    /// Whether `open` may be called on this input (see `open_admits`),
    /// computed.
    fn open_admitted(&self, io: &IoContext) -> (b: bool)
        ensures
            b == self.open_admits(*io),
    ;

    /// The container format this reader stands for.
    spec fn format_kind(&self) -> FormatId;

    /// The streams found so far.
    spec fn stream_seq(&self) -> Seq<Stream>;

    /// Whether `read_packet` may be called in this state (see
    /// `read_admits`), computed.
    fn read_admitted(&self) -> (b: bool)
        ensures
            b == self.read_admits(),
    ;

    /// Whether `seek` may be called with these arguments (see
    /// `seek_admits`), computed.
    fn seek_admitted(&self, stream_index: usize, timestamp: i64) -> (b: bool)
        ensures
            b == self.seek_admits(stream_index, timestamp),
    ;

    /// The container format.
    fn format_id(&self) -> (r: FormatId)
        ensures
            r == self.format_kind(),
    ;

    /// Short name of the demuxer.
    fn name(&self) -> &'static str;

    /// Reads the container header and sets up the streams.
    fn open(&mut self, io: &mut IoContext) -> TaoResult<()>
        requires
            io_in_range(*old(io)),
            old(self).open_admits(*old(io)),
    ;

    /// The streams found by `open`.
    fn streams(&self) -> (r: &[Stream])
        ensures
            r@ == self.stream_seq(),
    ;

    /// Reads the next packet; `Eof` at the end.
    fn read_packet(&mut self, io: &mut IoContext) -> TaoResult<Packet>
        requires
            io_in_range(*old(io)),
            old(self).read_admits(),
    ;

    /// Moves to `timestamp` (in the stream's time base).
    fn seek(&mut self, io: &mut IoContext, stream_index: usize, timestamp: i64, flags: SeekFlags) -> TaoResult<()>
        requires
            io_in_range(*old(io)),
            old(self).seek_admits(stream_index, timestamp),
    ;

    /// Container-level metadata.
    fn metadata(&self) -> &[(String, String)];
}

} // verus!

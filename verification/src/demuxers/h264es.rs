//! H.264 Annex B elementary streams: NAL units separated by start codes
//! `00 00 01` or `00 00 00 01`.

use vstd::prelude::*;
use crate::probe::{
    FormatProbe, ProbeScore, SCORE_EXTENSION, SCORE_MAX, ext_lower_in, filename_lower_ext_in,
    str_views,
};
use crate::format_id::FormatId;
use crate::error::{ErrorKind, TaoError, TaoResult, invalid_data, not_implemented};
use crate::io::IoContext;
use crate::media::{
    CodecId, MediaType, Packet, PixelFormat, Rational, SeekFlags, Stream, StreamParams, VideoStreamParams,
};
use crate::demuxer::{Demuxer, io_in_range};
use crate::demuxers::avi::{StreamView, stream_views};

verus! {

/// Whether a start code begins at `i` (as the start code search sees it).
pub open spec fn start_code_at(d: Seq<u8>, i: int) -> bool {
    &&& 0 <= i
    &&& i + 2 < d.len()
    &&& d[i] == 0
    &&& d[i + 1] == 0
    &&& (d[i + 2] == 1 || (i + 3 < d.len() && d[i + 2] == 0 && d[i + 3] == 1))
}

/// An optional position as an integer.
pub open spec fn opt_int(o: Option<usize>) -> Option<int> {
    match o {
        Some(p) => Some(p as int),
        None => None,
    }
}

/// The first start code at or after `i`.
pub open spec fn next_sc(d: Seq<u8>, i: int) -> Option<int>
    decreases d.len() - i,
{
    if i < 0 || i + 2 >= d.len() {
        None
    } else if start_code_at(d, i) {
        Some(i)
    } else {
        next_sc(d, i + 1)
    }
}

/// Finds the first start code at or after `start`.
pub fn find_start_code(data: &[u8], start: usize) -> (r: Option<usize>)
    requires
        start + 3 <= usize::MAX,
    ensures
        r matches Some(p) ==> start <= p && start_code_at(data@, p as int) && forall|j: int|
            start <= j < p ==> !start_code_at(data@, j),
        r is None ==> forall|j: int| start <= j ==> !start_code_at(data@, j),
        opt_int(r) == next_sc(data@, start as int),
{
    if data.len() < start + 3 {
        return None;
    }
    let mut i = start;
    while i < data.len() - 2
        invariant
            start <= i,
            i <= data@.len(),
            start + 3 <= data@.len(),
            forall|j: int| start <= j < i ==> !start_code_at(data@, j),
            next_sc(data@, start as int) == next_sc(data@, i as int),
        decreases data.len() - i,
    {
        if data[i] == 0 && data[i + 1] == 0 {
            if data[i + 2] == 1 {
                return Some(i);
            }
            if i + 3 < data.len() && data[i + 2] == 0 && data[i + 3] == 1 {
                return Some(i);
            }
        }
        i = i + 1;
    }
    None
}

/// Offset of the NAL header after a start code at `pos`: 4 after a 4 byte
/// start code, otherwise 3.
pub fn skip_start_code(data: &[u8], pos: usize) -> (r: usize)
    requires
        pos + 4 <= usize::MAX,
    ensures
        r == (if pos + 3 < data@.len() && data@[pos as int] == 0 && data@[pos + 1] == 0
            && data@[pos + 2] == 0 && data@[pos + 3] == 1 {
            pos + 4
        } else {
            pos + 3
        }),
{
    if pos + 3 < data.len() && data[pos] == 0 && data[pos + 1] == 0 && data[pos + 2] == 0
        && data[pos + 3] == 1 {
        pos + 4
    } else {
        pos + 3
    }
}

/// NAL unit type: the low 5 bits of the NAL header.
pub fn nal_type(nal_header: u8) -> (r: u8)
    ensures
        r == nal_header % 32,
{
    assert(nal_header & 0x1F == nal_header % 32) by (bit_vector);
    nal_header & 0x1F
}

/// Whether a NAL type carries slice data (types 1 to 5).
pub fn is_vcl_nal(nt: u8) -> (r: bool)
    ensures
        r == (1 <= nt <= 5),
{
    1 <= nt && nt <= 5
}

/// Number of plausible NAL headers the H.264 probe counts from `pos` on,
/// scanning up to `limit`.
pub open spec fn h264_nal_count(d: Seq<u8>, pos: int, limit: int) -> nat
    decreases limit + 8 - pos,
{
    if pos < 0 || pos + 3 >= limit || limit > d.len() {
        0
    } else {
        let four = pos + 4 < d.len() && d[pos] == 0 && d[pos + 1] == 0 && d[pos + 2] == 0 && d[pos
            + 3] == 1;
        let three = d[pos] == 0 && d[pos + 1] == 0 && d[pos + 2] == 1;
        if !four && !three {
            h264_nal_count(d, pos + 1, limit)
        } else {
            let sc_end = if four { pos + 4 } else { pos + 3 };
            if sc_end >= d.len() {
                0
            } else {
                let nal = d[sc_end];
                (if nal / 128 == 0 && 1 <= nal % 32 <= 13 { 1nat } else { 0nat }) + h264_nal_count(
                    d,
                    sc_end + 1,
                    limit,
                )
            }
        }
    }
}

/// What the H.264 probe answers.
pub open spec fn h264_probe_score(d: Seq<u8>, filename: Option<&str>) -> Option<ProbeScore> {
    let limit = if d.len() < 4096 { d.len() as int } else { 4096 };
    let n = h264_nal_count(d, 0, limit);
    if n >= 2 {
        Some(SCORE_MAX)
    } else if n == 1 {
        Some((SCORE_MAX - 5) as u32)
    } else if ext_lower_in(filename, seq!["h264"@, "264"@]) {
        Some(SCORE_EXTENSION)
    } else {
        None
    }
}

/// Recogniser of H.264 Annex B streams.
pub struct H264EsProbe;

impl FormatProbe for H264EsProbe {
    fn probe(&self, data: &[u8], filename: Option<&str>) -> (r: Option<ProbeScore>)
        ensures
            r == h264_probe_score(data@, filename),
    {
        let mut valid_nal_count: u32 = 0;
        let mut pos: usize = 0;
        let limit = if data.len() < 4096 {
            data.len()
        } else {
            4096
        };
        let ghost total = h264_nal_count(data@, 0, limit as int);
        let mut stop = false;
        while !stop && pos + 3 < limit
            invariant
                limit <= data@.len(),
                limit <= 4096,
                pos <= limit + 5,
                valid_nal_count <= pos,
                stop ==> h264_nal_count(data@, pos as int, limit as int) == 0,
                valid_nal_count + h264_nal_count(data@, pos as int, limit as int) == total,
            decreases (limit + 8 - pos) * 2 + (if stop { 0int } else { 1int }),
        {
            let four = pos + 4 < data.len() && data[pos] == 0 && data[pos + 1] == 0 && data[pos + 2]
                == 0 && data[pos + 3] == 1;
            let three = data[pos] == 0 && data[pos + 1] == 0 && data[pos + 2] == 1;
            if !four && !three {
                pos = pos + 1;
                continue;
            }
            let sc_end = if four {
                pos + 4
            } else {
                pos + 3
            };
            if sc_end >= data.len() {
                stop = true;
                continue;
            }
            let nal_byte = data[sc_end];
            let nt = nal_byte & 0x1F;
            let forbidden = nal_byte >> 7u8;
            assert(nal_byte & 0x1F == nal_byte % 32 && nal_byte >> 7u8 == nal_byte / 128) by (bit_vector);
            if forbidden == 0 && 1 <= nt && nt <= 13 {
                valid_nal_count = valid_nal_count + 1;
            }
            pos = sc_end + 1;
        }
        let ghost done = valid_nal_count;
        assert(valid_nal_count == total);
        if valid_nal_count >= 2 {
            return Some(SCORE_MAX);
        }
        if valid_nal_count == 1 {
            return Some(SCORE_MAX - 5);
        }
        let exts: [&str; 2] = ["h264", "264"];
        assert(str_views(exts@) =~= seq!["h264"@, "264"@]);
        if filename_lower_ext_in(filename, exts.as_slice()) {
            return Some(SCORE_EXTENSION);
        }
        None
    }

    fn format_id(&self) -> (r: FormatId)
        ensures
            r == FormatId::H264Es,
    {
        FormatId::H264Es
    }
}

/// Where the NAL header after the start code at `p` is.
pub open spec fn skip_sc(d: Seq<u8>, p: int) -> int {
    if p + 3 < d.len() && d[p] == 0 && d[p + 1] == 0 && d[p + 2] == 0 && d[p + 3] == 1 { p + 4 } else { p + 3 }
}

/// Whether a NAL type carries slice data.
pub open spec fn vcl(nt: int) -> bool {
    1 <= nt <= 5
}

/// The end of the access unit whose NAL units after the first are searched
/// from `search` (`found`: a slice NAL was seen): the start code of the next
/// slice NAL after a slice, or of an access unit delimiter after a slice;
/// or the end of the data (`true`).
pub open spec fn au_scan(d: Seq<u8>, search: int, found: bool) -> (int, bool)
    decreases d.len() - search,
{
    match next_sc(d, search) {
        None => (d.len() as int, true),
        Some(n) => {
            let nn = skip_sc(d, n);
            if n < search || nn >= d.len() {
                (d.len() as int, true)
            } else {
                let nt = d[nn] % 32;
                if vcl(nt as int) && found {
                    (n, false)
                } else if nt == 9 && (found || vcl(nt as int)) {
                    (n, false)
                } else {
                    au_scan(d, nn + 1, found || vcl(nt as int))
                }
            }
        },
    }
}

/// Whether an IDR slice (type 5) starts after a start code found in the
/// data up to `end`, walking the start codes from `s`.
pub open spec fn kf_scan(d: Seq<u8>, end: int, s: int) -> bool
    decreases end + 1 - s,
{
    if s < 0 || s > end || end > d.len() {
        false
    } else {
        match next_sc(d.take(end), s) {
            None => false,
            Some(p) => {
                let ns = skip_sc(d, p);
                if ns < end && d[ns] % 32 == 5 {
                    true
                } else if s < ns && ns <= end + 1 {
                    kf_scan(d, end, ns)
                } else {
                    false
                }
            },
        }
    }
}

/// The reader's position in its data.
pub struct H264State {
    pub data: Seq<u8>,
    pub offset: int,
    pub frames: u64,
    pub eof: bool,
}

/// What one read gives: an access unit (start, end, keyframe) or the end.
pub enum H264Read {
    Au(int, int, bool),
    End,
}

/// The next access unit from `st`, and the state after it.
pub open spec fn h264_read(st: H264State) -> (H264Read, H264State) {
    let d = st.data;
    if st.eof || st.offset >= d.len() {
        (H264Read::End, st)
    } else {
        match next_sc(d, st.offset) {
            None => (H264Read::End, H264State { eof: true, ..st }),
            Some(sc) => {
                let ns = skip_sc(d, sc);
                if ns >= d.len() {
                    (H264Read::End, H264State { eof: true, ..st })
                } else {
                    let (off, e) = au_scan(d, ns + 1, vcl((d[ns] % 32) as int));
                    let end = if e { d.len() as int } else { off };
                    let st2 = H264State { offset: end, eof: e, ..st };
                    if end <= sc {
                        (H264Read::End, H264State { eof: true, ..st2 })
                    } else {
                        (H264Read::Au(sc, end, kf_scan(d, end, sc)), H264State { frames: (st.frames + 1) as u64, ..st2 })
                    }
                }
            },
        }
    }
}

/// The data `open` takes from the cursor: the whole input (at most 256
/// MiB) when that much is left, nothing otherwise.
pub open spec fn h264_open_data(d: Seq<u8>, c: int) -> Seq<u8> {
    let limit = if d.len() < 0x1000_0000 { d.len() as int } else { 0x1000_0000 };
    if limit == 0 || c + limit > d.len() {
        seq![]
    } else {
        d.subrange(c, c + limit)
    }
}

/// The stream `open` adds.
pub open spec fn h264_stream() -> StreamView {
    StreamView {
        index: 0,
        media_type: MediaType::Video,
        codec_id: CodecId::H264,
        time_base: Rational::new_spec(1, 25),
        duration: -1i64,
        start_time: 0,
        nb_frames: 0,
        extra: seq![],
        params: StreamParams::Video(
            VideoStreamParams {
                width: 0,
                height: 0,
                pixel_format: PixelFormat::Yuv420p,
                frame_rate: Rational::new_spec(25, 1),
                sample_aspect_ratio: Rational::new_spec(1, 1),
                bit_rate: 0,
            },
        ),
        metadata: seq![],
    }
}

/// Finds the first start code at or after `start` in `data[..end]`.
fn find_start_code_before(data: &[u8], start: usize, end: usize) -> (r: Option<usize>)
    requires
        end <= data@.len(),
    ensures
        opt_int(r) == next_sc(data@.take(end as int), start as int),
        r matches Some(p) ==> start <= p && p + 2 < end,
{
    let ghost t = data@.take(end as int);
    if end < 3 || start > end - 3 {
        return None;
    }
    let mut i = start;
    while i < end - 2
        invariant
            start <= i <= end,
            end <= data@.len(),
            end >= 3,
            t == data@.take(end as int),
            next_sc(t, start as int) == next_sc(t, i as int),
        decreases end - i,
    {
        if data[i] == 0 && data[i + 1] == 0 {
            if data[i + 2] == 1 {
                assert(start_code_at(t, i as int));
                return Some(i);
            }
            if i + 3 < end && data[i + 2] == 0 && data[i + 3] == 1 {
                assert(start_code_at(t, i as int));
                return Some(i);
            }
        }
        assert(!start_code_at(t, i as int));
        i = i + 1;
    }
    None
}

/// Reader of H.264 Annex B streams: the whole input is read at `open`, and
/// each packet is one access unit.
pub struct H264EsDemuxer {
    streams: Vec<Stream>,
    data: Vec<u8>,
    offset: usize,
    frame_count: u64,
    eof: bool,
    metadata: Vec<(String, String)>,
}

impl H264EsDemuxer {
    /// The reader's position in its data.
    pub closed spec fn state(&self) -> H264State {
        H264State { data: self.data@, offset: self.offset as int, frames: self.frame_count, eof: self.eof }
    }

    /// The streams.
    pub closed spec fn stream_list(&self) -> Seq<Stream> {
        self.streams@
    }

    /// The container metadata (none).
    pub closed spec fn meta(&self) -> Seq<(String, String)> {
        self.metadata@
    }

    /// A reader before `open`.
    pub fn new() -> (r: Self)
        ensures
            r.state().data.len() == 0,
            r.state().offset == 0,
            r.state().frames == 0,
            !r.state().eof,
            r.stream_list().len() == 0,
            r.meta().len() == 0,
    {
        H264EsDemuxer { streams: Vec::new(), data: Vec::new(), offset: 0, frame_count: 0, eof: false, metadata: Vec::new() }
    }

    /// A boxed reader, for a registry.
    pub fn create() -> (r: TaoResult<Box<dyn Demuxer>>)
        ensures
            r matches Ok(d) && d.format_kind() == FormatId::H264Es && d.stream_seq().len() == 0,
    {
        Ok(Box::new(H264EsDemuxer::new()))
    }

    /// What `open` does: takes the input's bytes (see `h264_open_data`);
    /// without a start code in them it fails with `InvalidData` and keeps
    /// its state; otherwise it reads them from the start and adds the video
    /// stream.
    pub open spec fn open_post(old_self: Self, new_self: Self, old_io: IoContext, new_io: IoContext, r: TaoResult<()>) -> bool {
        let data = h264_open_data(old_io.contents(), old_io.cursor() as int);
        &&& new_io.contents() == old_io.contents()
        &&& if next_sc(data, 0) is None {
            &&& r matches Err(e) && e.kind() == ErrorKind::InvalidData
            &&& new_self.state() == old_self.state()
            &&& new_self.stream_list() == old_self.stream_list()
        } else {
            &&& r is Ok
            &&& new_self.state() == H264State { data, offset: 0, ..old_self.state() }
            &&& stream_views(new_self.stream_list()) == stream_views(old_self.stream_list()).push(h264_stream())
        }
    }

    /// Reads the input and sets up the video stream.
    pub fn open_h264(&mut self, io: &mut IoContext) -> (r: TaoResult<()>)
        requires
            io_in_range(*old(io)),
        ensures
            Self::open_post(*old(self), *final(self), *old(io), *final(io), r),
    {
        let file_size = match io.size() {
            Some(n) => n as usize,
            None => 0,
        };
        let read_limit: usize = if file_size < 0x1000_0000 {
            file_size
        } else {
            0x1000_0000
        };
        let buf: Vec<u8> = if read_limit == 0 {
            Vec::new()
        } else {
            match io.read_bytes(read_limit) {
                Ok(chunk) => chunk,
                Err(_) => Vec::new(),
            }
        };
        let ghost d = old(io).contents();
        let ghost c = old(io).cursor() as int;
        assert(buf@ =~= h264_open_data(d, c));
        if find_start_code(buf.as_slice(), 0).is_none() {
            return Err(invalid_data("H264 ES: no Annex B start code"));
        }
        self.data = buf;
        self.offset = 0;
        let stream = Stream {
            index: 0,
            media_type: MediaType::Video,
            codec_id: CodecId::H264,
            time_base: Rational::new(1, 25),
            duration: -1,
            start_time: 0,
            nb_frames: 0,
            extra_data: Vec::new(),
            params: StreamParams::Video(
                VideoStreamParams {
                    width: 0,
                    height: 0,
                    pixel_format: PixelFormat::Yuv420p,
                    frame_rate: Rational::new(25, 1),
                    sample_aspect_ratio: Rational::new(1, 1),
                    bit_rate: 0,
                },
            ),
            metadata: Vec::new(),
        };
        self.streams.push(stream);
        assert(stream_views(self.streams@) =~= stream_views(old(self).streams@).push(h264_stream()));
        Ok(())
    }

    /// What `read_packet` does (see `h264_read`): the next access unit as a
    /// packet, numbered by the frames read before it (time base 1/25, one
    /// frame long, position its start), or `Eof`.
    pub open spec fn read_post(old_self: Self, new_self: Self, r: TaoResult<Packet>) -> bool {
        let (res, st) = h264_read(old_self.state());
        &&& new_self.state() == st
        &&& new_self.stream_list() == old_self.stream_list()
        &&& match res {
            H264Read::End => r == Err::<Packet, TaoError>(TaoError::Eof),
            H264Read::Au(start, end, key) => r matches Ok(p) && {
                &&& p.payload() == old_self.state().data.subrange(start, end)
                &&& p.stream_index == 0
                &&& p.pts == old_self.state().frames as i64
                &&& p.dts == p.pts
                &&& p.is_keyframe == key
                &&& p.duration == 1
                &&& p.time_base == Rational::new_spec(1, 25)
                &&& p.pos == start
            },
        }
    }

    /// Whether an IDR slice starts in `data[au_start..au_end]`.
    fn keyframe_in(&self, au_start: usize, au_end: usize) -> (r: bool)
        requires
            au_start <= au_end <= self.data@.len(),
            self.data@.len() <= 0x1000_0000,
        ensures
            r == kf_scan(self.data@, au_end as int, au_start as int),
    {
        let mut s = au_start;
        loop
            invariant
                au_end <= self.data@.len() <= 0x1000_0000,
                s <= au_end + 1,
                kf_scan(self.data@, au_end as int, au_start as int) == kf_scan(self.data@, au_end as int, s as int),
            decreases au_end + 1 - s,
        {
            if s > au_end {
                return false;
            }
            let p = match find_start_code_before(self.data.as_slice(), s, au_end) {
                Some(p) => p,
                None => {
                    return false;
                },
            };
            let ns = skip_start_code(self.data.as_slice(), p);
            if ns < au_end {
                let nt = nal_type(self.data[ns]);
                if nt == 5 {
                    return true;
                }
            }
            if !(s < ns && ns <= au_end + 1) {
                return false;
            }
            s = ns;
        }
    }

    /// Reads the next access unit: from the next start code to the start
    /// code of the next access unit (or the end of the data).
    pub fn read_h264_packet(&mut self) -> (r: TaoResult<Packet>)
        requires
            old(self).state().frames < u64::MAX,
            old(self).state().data.len() <= 0x1000_0000,
        ensures
            Self::read_post(*old(self), *final(self), r),
    {
        if self.eof || self.offset >= self.data.len() {
            return Err(TaoError::Eof);
        }
        let sc_pos = match find_start_code(self.data.as_slice(), self.offset) {
            Some(p) => p,
            None => {
                self.eof = true;
                return Err(TaoError::Eof);
            },
        };
        let nal_start = skip_start_code(self.data.as_slice(), sc_pos);
        if nal_start >= self.data.len() {
            self.eof = true;
            return Err(TaoError::Eof);
        }
        let first_nal_type = nal_type(self.data[nal_start]);
        let au_start = sc_pos;
        let mut search_pos = nal_start + 1;
        let mut found_vcl = is_vcl_nal(first_nal_type);
        let ghost d = self.data@;
        let ghost target = au_scan(d, search_pos as int, found_vcl);
        loop
            invariant_except_break
                self.data@ == d,
                d.len() <= 0x1000_0000,
                search_pos <= d.len() + 1,
                sc_pos < search_pos,
                target == au_scan(d, search_pos as int, found_vcl),
            invariant
                self.data@ == d,
                self.streams == old(self).streams,
                self.frame_count == old(self).frame_count,
            ensures
                self.offset <= d.len(),
                self.offset == (if target.1 { d.len() as int } else { target.0 }),
                self.eof == target.1,
                target.1 || sc_pos < target.0,
            decreases d.len() + 1 - search_pos,
        {
            let next_sc = match find_start_code(self.data.as_slice(), search_pos) {
                Some(p) => p,
                None => {
                    self.offset = self.data.len();
                    self.eof = true;
                    break;
                },
            };
            let next_nal_start = skip_start_code(self.data.as_slice(), next_sc);
            if next_nal_start >= self.data.len() {
                self.offset = self.data.len();
                self.eof = true;
                break;
            }
            let next_nt = nal_type(self.data[next_nal_start]);
            if is_vcl_nal(next_nt) {
                if found_vcl {
                    self.offset = next_sc;
                    self.eof = false;
                    break;
                }
                found_vcl = true;
            }
            if next_nt == 9 && found_vcl {
                self.offset = next_sc;
                self.eof = false;
                break;
            }
            search_pos = next_nal_start + 1;
        }
        let au_end = if self.eof {
            self.data.len()
        } else {
            self.offset
        };
        if au_end <= au_start {
            self.eof = true;
            return Err(TaoError::Eof);
        }
        let is_keyframe = self.keyframe_in(au_start, au_end);
        let pts = self.frame_count as i64;
        self.frame_count = self.frame_count + 1;
        let mut packet_data: Vec<u8> = Vec::new();
        let mut k = au_start;
        while k < au_end
            invariant
                au_start <= k <= au_end <= self.data@.len(),
                packet_data@ == self.data@.subrange(au_start as int, k as int),
            decreases au_end - k,
        {
            packet_data.push(self.data[k]);
            k = k + 1;
            assert(packet_data@ =~= self.data@.subrange(au_start as int, k as int));
        }
        let mut pkt = Packet::from_vec(packet_data);
        pkt.stream_index = 0;
        pkt.pts = pts;
        pkt.dts = pts;
        pkt.is_keyframe = is_keyframe;
        pkt.duration = 1;
        pkt.time_base = Rational::new(1, 25);
        pkt.pos = au_start as i64;
        Ok(pkt)
    }
}

impl Demuxer for H264EsDemuxer {
    open spec fn open_admits(&self, io: IoContext) -> bool {
        true
    }

    fn open_admitted(&self, io: &IoContext) -> (b: bool)
        ensures
            b == self.open_admits(*io),
    {
        true
    }

    open spec fn format_kind(&self) -> FormatId {
        FormatId::H264Es
    }

    open spec fn stream_seq(&self) -> Seq<Stream> {
        self.stream_list()
    }

    open spec fn seek_admits(&self, stream_index: usize, timestamp: i64) -> bool {
        true
    }

    open spec fn read_admits(&self) -> bool {
        &&& self.state().frames < u64::MAX
        &&& self.state().data.len() <= 0x1000_0000
    }

    fn read_admitted(&self) -> (b: bool)
        ensures
            b == self.read_admits(),
    {
        self.frame_count < u64::MAX && self.data.len() <= 0x1000_0000
    }

    fn seek_admitted(&self, stream_index: usize, timestamp: i64) -> (b: bool)
        ensures
            b == self.seek_admits(stream_index, timestamp),
    {
        true
    }


    fn format_id(&self) -> (r: FormatId)
        ensures
            r == FormatId::H264Es,
    {
        FormatId::H264Es
    }

    fn name(&self) -> (r: &'static str)
        ensures
            r@ == "h264"@,
    {
        "h264"
    }

    fn open(&mut self, io: &mut IoContext) -> (r: TaoResult<()>)
        ensures
            Self::open_post(*old(self), *final(self), *old(io), *final(io), r),
    {
        self.open_h264(io)
    }

    fn streams(&self) -> (r: &[Stream])
        ensures
            r@ == self.stream_list(),
    {
        self.streams.as_slice()
    }

    fn read_packet(&mut self, io: &mut IoContext) -> (r: TaoResult<Packet>)
        ensures
            Self::read_post(*old(self), *final(self), r),
            *final(io) == *old(io),
    {
        self.read_h264_packet()
    }

    /// Seeking is not supported: always `NotImplemented`, and nothing changes.
    fn seek(&mut self, io: &mut IoContext, stream_index: usize, timestamp: i64, flags: SeekFlags) -> (r: TaoResult<()>)
        ensures
            r matches Err(e) && e.kind() == ErrorKind::NotImplemented,
            *final(self) == *old(self),
            *final(io) == *old(io),
    {
        Err(not_implemented("H264 ES does not support seeking"))
    }

    fn metadata(&self) -> (r: &[(String, String)])
        ensures
            r@ == self.meta(),
    {
        self.metadata.as_slice()
    }
}

} // verus!

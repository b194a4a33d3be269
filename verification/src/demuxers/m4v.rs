//! MPEG-4 Part 2 elementary stream: start codes `00 00 01 xx` delimit the
//! visual object sequence, VOL headers and VOPs.

use vstd::prelude::*;
use crate::probe::{
    FormatProbe, ProbeScore, SCORE_EXTENSION, SCORE_MAX, SCORE_MIME, has_tag, tag_at, str_views,
    name_ascii_ends_in, filename_ascii_ends_in, name_lower_ends_with, filename_lower_ends_with,
    ext_lower_in, filename_lower_ext_in, ext_matches_ci, filename_ext_is,
};
use crate::format_id::FormatId;
use crate::error::{ErrorKind, TaoError, TaoResult, invalid_data, not_implemented};
use crate::io::{IoContext, SeekFrom, exhausted_cursor};
use crate::media::{
    CodecId, MediaType, Packet, PixelFormat, Rational, SeekFlags, Stream, StreamParams,
    VideoStreamParams,
};
use crate::demuxer::{Demuxer, io_in_range};
use crate::demuxers::avi::{StreamView, stream_view, stream_views};

verus! {

/// Score that the first start code's type gives.
pub open spec fn m4v_code_score(code: u8) -> Option<ProbeScore> {
    if code == 0xB0 {
        Some(90)
    } else if code == 0xB5 {
        Some(80)
    } else if code <= 0x2F {
        Some(70)
    } else if code == 0xB3 {
        Some(60)
    } else if code == 0xB6 {
        Some(50)
    } else {
        None
    }
}

/// What the MPEG-4 elementary stream probe answers: the file name plays no
/// part.
pub open spec fn m4v_probe_score(d: Seq<u8>, filename: Option<&str>) -> Option<ProbeScore> {
    if d.len() < 4 || d[0] != 0 || d[1] != 0 || d[2] != 1 {
        None
    } else {
        m4v_code_score(d[3])
    }
}

/// Recogniser of MPEG-4 Part 2 elementary streams.
pub struct M4vProbe;

impl FormatProbe for M4vProbe {
    fn probe(&self, data: &[u8], filename: Option<&str>) -> (r: Option<ProbeScore>)
        ensures
            r == m4v_probe_score(data@, filename),
    {
        if data.len() < 4 {
            return None;
        }
        if data[0] != 0 || data[1] != 0 || data[2] != 1 {
            return None;
        }
        let code = data[3];
        match code {
            0xB0 => Some(90),
            0xB5 => Some(80),
            0x00..=0x2F => Some(70),
            0xB3 => Some(60),
            0xB6 => Some(50),
            _ => None,
        }
    }

    fn format_id(&self) -> (r: FormatId)
        ensures
            r == FormatId::Mpeg4Es,
    {
        FormatId::Mpeg4Es
    }
}

/// Whether `code` after a `00 00 01` prefix starts a unit this reader
/// stops at: a video object or layer (up to 0x2F) or one of 0xB0 to 0xB6.
pub open spec fn is_start_code(code: u8) -> bool {
    code <= 0x2F || (0xB0 <= code && code <= 0xB6)
}

/// Whether `00 00 01` stands at `i`.
pub open spec fn prefix_at(d: Seq<u8>, i: int) -> bool {
    0 <= i && i + 3 <= d.len() && d[i] == 0 && d[i + 1] == 0 && d[i + 2] == 1
}

/// The first start code at or after `i` (its prefix position), when one
/// with its code byte lies inside the data.
pub open spec fn m4v_scan(d: Seq<u8>, i: int) -> Option<int>
    decreases d.len() - i,
{
    if i < 0 || i + 4 > d.len() {
        None
    } else if prefix_at(d, i) && is_start_code(d[i + 3]) {
        Some(i)
    } else {
        m4v_scan(d, i + 1)
    }
}

/// The first `00 00 01` prefix at or after `p`.
pub open spec fn m4v_until(d: Seq<u8>, p: int) -> Option<int>
    decreases d.len() - p,
{
    if p < 0 || p + 3 > d.len() {
        None
    } else if prefix_at(d, p) {
        Some(p)
    } else {
        m4v_until(d, p + 1)
    }
}

/// A found start code lies after `i` and inside the data.
pub proof fn lemma_scan_bounds(d: Seq<u8>, i: int)
    ensures
        m4v_scan(d, i) matches Some(j) ==> i <= j && j + 4 <= d.len() && prefix_at(d, j)
            && is_start_code(d[j + 3]),
    decreases d.len() - i,
{
    if i >= 0 && i + 4 <= d.len() && !(prefix_at(d, i) && is_start_code(d[i + 3])) {
        lemma_scan_bounds(d, i + 1);
    }
}

/// A found prefix lies after `p` and inside the data.
pub proof fn lemma_until_bounds(d: Seq<u8>, p: int)
    ensures
        m4v_until(d, p) matches Some(j) ==> p <= j && j + 3 <= d.len(),
    decreases d.len() - p,
{
    if p >= 0 && p + 3 <= d.len() && !prefix_at(d, p) {
        lemma_until_bounds(d, p + 1);
    }
}

/// The bytes from `p` up to the next prefix (or the end).
pub open spec fn until_data(d: Seq<u8>, p: int) -> Seq<u8> {
    match m4v_until(d, p) {
        Some(j) => d.subrange(p, j),
        None => if p >= d.len() { seq![] } else { d.subrange(p, d.len() as int) },
    }
}

/// Where the cursor stands after reading up to the next prefix: one byte
/// before the prefix, or at the end.
pub open spec fn until_cursor(d: Seq<u8>, p: int) -> int {
    match m4v_until(d, p) {
        Some(j) => j - 1,
        None => exhausted_cursor(d, p as nat) as int,
    }
}

/// A unit: its prefix, its code and the bytes up to the next prefix.
pub open spec fn unit_bytes(d: Seq<u8>, code: u8, p: int) -> Seq<u8> {
    seq![0u8, 0, 1, code] + until_data(d, p)
}

/// The header units before the first frame, from cursor `c`: what they
/// gather and where the cursor stands after them (on the first VOP).
pub open spec fn m4v_open_iter(d: Seq<u8>, c: int, has_vol: bool, ex: Seq<u8>) -> Result<(Seq<u8>, int), ErrorKind>
    decreases d.len() - c,
{
    match m4v_scan(d, c) {
        None => Err(ErrorKind::InvalidData),
        Some(i) => {
            proof {
                lemma_scan_bounds(d, c);
                lemma_until_bounds(d, i + 4);
            }
            let code = d[i + 3];
            let c1 = i + 4;
            let c2 = until_cursor(d, c1);
            if code == 0xB6 {
                if !has_vol {
                    let ex1 = ex + unit_bytes(d, 0xB6, c1);
                    match m4v_scan(d, c2) {
                        Some(i2) => {
                            proof {
                                lemma_scan_bounds(d, c2);
                                lemma_until_bounds(d, i2 + 4);
                            }
                            let code2 = d[i2 + 3];
                            if 0x20 <= code2 && code2 <= 0x2F {
                                m4v_open_iter(d, until_cursor(d, i2 + 4), true, ex1 + unit_bytes(d, code2, i2 + 4))
                            } else {
                                Ok((ex1, i2))
                            }
                        },
                        None => Ok((ex1, exhausted_cursor(d, c2 as nat) as int)),
                    }
                } else {
                    Ok((ex, i))
                }
            } else if code == 0xB1 {
                Err(ErrorKind::InvalidData)
            } else {
                m4v_open_iter(d, c2, has_vol || (0x20 <= code && code <= 0x2F), ex + unit_bytes(d, code, c1))
            }
        },
    }
}

/// Finds the next start code from the cursor: its code and the position
/// of its prefix, with the cursor after the code; `None` at the end.
fn find_next_start_code(io: &mut IoContext) -> (r: Option<(u8, u64)>)
    requires
        io_in_range(*old(io)),
    ensures
        final(io).contents() == old(io).contents(),
        io_in_range(*final(io)),
        match m4v_scan(old(io).contents(), old(io).cursor() as int) {
            Some(i) => r == Some((old(io).contents()[i + 3], i as u64)) && final(io).cursor() == i + 4,
            None => r is None && final(io).cursor() == exhausted_cursor(old(io).contents(), old(io).cursor()),
        },
{
    let ghost d = io.contents();
    let c: usize = match io.position() {
        Ok(p) => p as usize,
        Err(_) => 0,
    };
    let n = io.data().len();
    let mut i = c;
    let mut found: Option<(u8, u64)> = None;
    while i + 4 <= n
        invariant_except_break
            found is None,
            m4v_scan(d, c as int) == m4v_scan(d, i as int),
        invariant
            io.contents() == d,
            n == d.len(),
            n <= 0x1_0000_0000_0000,
            c == old(io).cursor(),
            c <= 0x10_0000_0000_0000,
            0x40_0000_0000_0000 <= usize::MAX,
            io.cursor() == c,
            c <= i <= c + n,
        ensures
            found matches Some((code, pos)) ==> m4v_scan(d, c as int) == Some(pos as int) && code
                == d[pos + 3],
            found is None ==> m4v_scan(d, c as int) is None,
        decreases n - i,
    {
        let data = io.data();
        if data[i] == 0 && data[i + 1] == 0 && data[i + 2] == 1 && (data[i + 3] <= 0x2F || (0xB0
            <= data[i + 3] && data[i + 3] <= 0xB6)) {
            found = Some((data[i + 3], i as u64));
            break;
        }
        i = i + 1;
    }
    proof {
        lemma_scan_bounds(d, c as int);
    }
    match found {
        Some((code, pos)) => {
            let _ = io.seek(SeekFrom::Start(pos + 4));
            Some((code, pos))
        },
        None => {
            if c < n {
                let _ = io.seek(SeekFrom::Start(n as u64));
            }
            None
        },
    }
}

/// Reads the bytes from the cursor up to the next `00 00 01` prefix (or the
/// end), leaving the cursor one byte before the prefix.
fn read_until_next_start_code(io: &mut IoContext) -> (r: Vec<u8>)
    requires
        io_in_range(*old(io)),
        old(io).cursor() >= 1,
    ensures
        final(io).contents() == old(io).contents(),
        io_in_range(*final(io)),
        r@ == until_data(old(io).contents(), old(io).cursor() as int),
        final(io).cursor() == until_cursor(old(io).contents(), old(io).cursor() as int),
{
    let ghost d = io.contents();
    let c: usize = match io.position() {
        Ok(p) => p as usize,
        Err(_) => 0,
    };
    let n = io.data().len();
    let mut j = c;
    let mut found = false;
    while j + 3 <= n
        invariant_except_break
            !found,
        invariant
            io.contents() == d,
            n == d.len(),
            n <= 0x1_0000_0000_0000,
            c == old(io).cursor(),
            c <= 0x10_0000_0000_0000,
            0x40_0000_0000_0000 <= usize::MAX,
            io.cursor() == c,
            c <= j <= c + n,
            m4v_until(d, c as int) == m4v_until(d, j as int),
        ensures
            found ==> m4v_until(d, c as int) == Some(j as int),
            !found ==> m4v_until(d, c as int) is None,
        decreases n - j,
    {
        let data = io.data();
        if data[j] == 0 && data[j + 1] == 0 && data[j + 2] == 1 {
            found = true;
            break;
        }
        j = j + 1;
    }
    proof {
        lemma_until_bounds(d, c as int);
    }
    let mut out: Vec<u8> = Vec::new();
    if found {
        crate::endian::push_all(&mut out, &io.data()[c..j]);
        let _ = io.seek(SeekFrom::Start((j - 1) as u64));
    } else if c < n {
        crate::endian::push_all(&mut out, &io.data()[c..n]);
        let _ = io.seek(SeekFrom::Start(n as u64));
    }
    out
}

/// What reading one frame from `c` gives: the frame's bytes (`None` at the
/// end when no VOP was found), whether the end was reached, and where the
/// cursor stands. `first` says whether header units are kept (before the
/// first frame), `pd` is what was gathered so far.
pub open spec fn m4v_read_iter(d: Seq<u8>, c: int, first: bool, pd: Seq<u8>, found: bool) -> (Option<Seq<u8>>, bool, int)
    decreases d.len() - c,
{
    match m4v_scan(d, c) {
        None => (if pd.len() == 0 || !found { None } else { Some(pd) }, true, exhausted_cursor(d, c as nat) as int),
        Some(i) => {
            proof {
                lemma_scan_bounds(d, c);
                lemma_until_bounds(d, i + 4);
            }
            let code = d[i + 3];
            let c2 = until_cursor(d, i + 4);
            if code == 0xB6 {
                if found {
                    (Some(pd), false, i)
                } else {
                    m4v_read_iter(d, c2, first, pd + unit_bytes(d, 0xB6, i + 4), true)
                }
            } else if code == 0xB1 {
                (if pd.len() == 0 || !found { None } else { Some(pd) }, true, i + 4)
            } else if first {
                m4v_read_iter(d, c2, first, pd + unit_bytes(d, code, i + 4), found)
            } else {
                m4v_read_iter(d, c2, first, pd, found)
            }
        },
    }
}

/// After a found start code and the bytes up to the next prefix, the cursor
/// has moved on by at least three and is inside the data.
proof fn lemma_unit_progress(d: Seq<u8>, c: int)
    requires
        m4v_scan(d, c) is Some,
    ensures
        ({
            let i = m4v_scan(d, c)->Some_0;
            &&& c <= i
            &&& i + 4 <= d.len()
            &&& c + 3 <= i + 3 <= until_cursor(d, i + 4) <= d.len()
            &&& prefix_at(d, i)
        }),
{
    lemma_scan_bounds(d, c);
    let i = m4v_scan(d, c)->Some_0;
    lemma_until_bounds(d, i + 4);
}

/// What a frame read gives extends what was gathered before.
pub proof fn lemma_read_iter_extends(d: Seq<u8>, c: int, first: bool, pd: Seq<u8>, found: bool)
    ensures
        m4v_read_iter(d, c, first, pd, found).0 matches Some(x) ==> pd.len() <= x.len() && x.subrange(
            0,
            pd.len() as int,
        ) == pd,
    decreases d.len() - c,
{
    match m4v_scan(d, c) {
        None => {
            assert(pd.subrange(0, pd.len() as int) =~= pd);
        },
        Some(i) => {
            lemma_scan_bounds(d, c);
            lemma_until_bounds(d, i + 4);
            let code = d[i + 3];
            let c2 = until_cursor(d, i + 4);
            if code == 0xB6 {
                if found {
                    assert(pd.subrange(0, pd.len() as int) =~= pd);
                } else {
                    let pd2 = pd + unit_bytes(d, 0xB6, i + 4);
                    lemma_read_iter_extends(d, c2, first, pd2, true);
                    if let Some(x) = m4v_read_iter(d, c2, first, pd2, true).0 {
                        assert(x.subrange(0, pd.len() as int) =~= pd2.subrange(0, pd2.len() as int).subrange(0, pd.len() as int));
                    }
                }
            } else if code == 0xB1 {
                assert(pd.subrange(0, pd.len() as int) =~= pd);
            } else if first {
                let pd2 = pd + unit_bytes(d, code, i + 4);
                lemma_read_iter_extends(d, c2, first, pd2, found);
                if let Some(x) = m4v_read_iter(d, c2, first, pd2, found).0 {
                    assert(x.subrange(0, pd.len() as int) =~= pd2.subrange(0, pd2.len() as int).subrange(0, pd.len() as int));
                }
            } else {
                lemma_read_iter_extends(d, c2, first, pd, found);
            }
        },
    }
}

/// The reader's state.
pub struct M4vState {
    pub frame_count: u64,
    pub time_base: Rational,
    pub eof: bool,
    pub extra: Seq<u8>,
    pub collected: bool,
}

/// The stream `open` adds, with the header units `ex`.
pub open spec fn m4v_stream(tb: Rational, ex: Seq<u8>) -> StreamView {
    StreamView {
        index: 0,
        media_type: MediaType::Video,
        codec_id: CodecId::Mpeg4,
        time_base: tb,
        duration: -1i64,
        start_time: 0,
        nb_frames: 0,
        extra: ex,
        params: StreamParams::Video(
            VideoStreamParams {
                width: 0,
                height: 0,
                pixel_format: PixelFormat::Yuv420p,
                frame_rate: Rational::new_spec(25, 1),
                sample_aspect_ratio: Rational::new_spec(1, 1),
                bit_rate: 0,
            },
        ),
        metadata: seq![],
    }
}

/// Reader of MPEG-4 Part 2 elementary streams: one packet per VOP, the
/// header units before the first VOP prepended to the first packet.
pub struct M4vDemuxer {
    streams: Vec<Stream>,
    frame_count: u64,
    timebase: Rational,
    eof: bool,
    extra_data: Vec<u8>,
    extra_data_collected: bool,
    metadata: Vec<(String, String)>,
}

impl M4vDemuxer {
    /// The state.
    pub closed spec fn state(&self) -> M4vState {
        M4vState {
            frame_count: self.frame_count,
            time_base: self.timebase,
            eof: self.eof,
            extra: self.extra_data@,
            collected: self.extra_data_collected,
        }
    }

    /// The streams.
    pub closed spec fn stream_list(&self) -> Seq<Stream> {
        self.streams@
    }

    /// The container metadata (none).
    pub closed spec fn meta(&self) -> Seq<(String, String)> {
        self.metadata@
    }

    /// A reader before `open`, at 25 frames per second.
    pub fn new() -> (r: Self)
        ensures
            r.state() == (M4vState {
                frame_count: 0,
                time_base: Rational::new_spec(1, 25),
                eof: false,
                extra: seq![],
                collected: false,
            }),
            r.stream_list().len() == 0,
            r.meta().len() == 0,
    {
        M4vDemuxer {
            streams: Vec::new(),
            frame_count: 0,
            timebase: Rational::new(1, 25),
            eof: false,
            extra_data: Vec::new(),
            extra_data_collected: false,
            metadata: Vec::new(),
        }
    }

    /// A boxed reader, for a registry.
    pub fn create() -> (r: TaoResult<Box<dyn Demuxer>>)
        ensures
            r matches Ok(d) && d.format_kind() == FormatId::Mpeg4Es && d.stream_seq().len() == 0,
    {
        Ok(Box::new(M4vDemuxer::new()))
    }

    /// What `open` does (see `m4v_open_iter`).
    pub open spec fn open_post(old_self: Self, new_self: Self, old_io: IoContext, new_io: IoContext, r: TaoResult<()>) -> bool {
        &&& new_io.contents() == old_io.contents()
        &&& match m4v_open_iter(old_io.contents(), old_io.cursor() as int, false, seq![]) {
            Ok((ex, cur)) => {
                &&& r is Ok
                &&& new_self.state() == (M4vState { extra: ex, collected: true, ..old_self.state() })
                &&& stream_views(new_self.stream_list()) == stream_views(old_self.stream_list()).push(
                    m4v_stream(old_self.state().time_base, ex),
                )
                &&& new_io.cursor() == cur
            },
            Err(k) => {
                &&& r matches Err(e) && e.kind() == k
                &&& new_self.stream_list() == old_self.stream_list()
                &&& new_self.state() == old_self.state()
            },
        }
    }

    /// Gathers the header units before the first VOP and sets up the
    /// stream.
    pub fn open_m4v(&mut self, io: &mut IoContext) -> (r: TaoResult<()>)
        requires
            io_in_range(*old(io)),
        ensures
            Self::open_post(*old(self), *final(self), *old(io), *final(io), r),
    {
        let ghost d = io.contents();
        let ghost target = m4v_open_iter(d, io.cursor() as int, false, seq![]);
        let mut extra: Vec<u8> = Vec::new();
        let mut has_vol = false;
        loop
            invariant_except_break
                m4v_open_iter(d, io.cursor() as int, has_vol, extra@) == target,
            invariant
                io.contents() == d,
                d == old(io).contents(),
                io_in_range(*io),
                target == m4v_open_iter(old(io).contents(), old(io).cursor() as int, false, seq![]),
                *self == *old(self),
            ensures
                target == Ok::<(Seq<u8>, int), ErrorKind>((extra@, io.cursor() as int)),
            decreases d.len() - io.cursor(),
        {
            let ghost c = io.cursor() as int;
            let (code, pos) = match find_next_start_code(io) {
                Some(x) => x,
                None => {
                    assert(m4v_open_iter(d, c, has_vol, extra@) == Err::<(Seq<u8>, int), ErrorKind>(ErrorKind::InvalidData));
                    return Err(invalid_data("M4V: no start code"));
                },
            };
            proof {
                lemma_unit_progress(d, c);
            }
            if code == 0xB6 {
                if !has_vol {
                    push_unit(&mut extra, 0xB6, io);
                    let ghost c2 = io.cursor() as int;
                    match find_next_start_code(io) {
                        Some((code2, pos2)) => {
                            proof {
                                lemma_unit_progress(d, c2);
                            }
                            if 0x20 <= code2 && code2 <= 0x2F {
                                has_vol = true;
                                push_unit(&mut extra, code2, io);
                                continue;
                            } else {
                                let _ = io.seek(SeekFrom::Start(pos2));
                                break;
                            }
                        },
                        None => {
                            break;
                        },
                    }
                } else {
                    let _ = io.seek(SeekFrom::Start(pos));
                    break;
                }
            }
            if code == 0xB1 {
                assert(m4v_open_iter(d, c, has_vol, extra@) == Err::<(Seq<u8>, int), ErrorKind>(ErrorKind::InvalidData));
                return Err(invalid_data("M4V: sequence ends before the first VOP"));
            }
            if 0x20 <= code && code <= 0x2F {
                has_vol = true;
            }
            push_unit(&mut extra, code, io);
        }
        let mut stream_extra: Vec<u8> = Vec::new();
        crate::endian::push_all(&mut stream_extra, extra.as_slice());
        let stream = Stream {
            index: 0,
            media_type: MediaType::Video,
            codec_id: CodecId::Mpeg4,
            time_base: self.timebase,
            duration: -1,
            start_time: 0,
            nb_frames: 0,
            extra_data: stream_extra,
            params: StreamParams::Video(
                VideoStreamParams {
                    width: 0,
                    height: 0,
                    pixel_format: PixelFormat::Yuv420p,
                    frame_rate: Rational::new(25, 1),
                    sample_aspect_ratio: Rational::new(1, 1),
                    bit_rate: 0,
                },
            ),
            metadata: Vec::new(),
        };
        proof {
            assert(stream_view(stream) == m4v_stream(self.timebase, extra@));
        }
        self.streams.push(stream);
        assert(stream_views(self.streams@) =~= stream_views(old(self).streams@).push(m4v_stream(old(self).timebase, extra@)));
        self.extra_data = extra;
        self.extra_data_collected = true;
        Ok(())
    }

    /// What `read_packet` does (see `m4v_read_iter`): nothing after the end;
    /// else the next frame, counted in frames.
    pub open spec fn read_post(old_self: Self, new_self: Self, old_io: IoContext, new_io: IoContext, r: TaoResult<Packet>) -> bool {
        let st = old_self.state();
        &&& new_io.contents() == old_io.contents()
        &&& new_self.stream_list() == old_self.stream_list()
        &&& if st.eof {
            &&& r matches Err(e) && e.kind() == ErrorKind::Eof
            &&& new_self.state() == st
            &&& new_io.cursor() == old_io.cursor()
        } else {
            let first = st.frame_count == 0;
            let pd0 = if first && st.collected { st.extra } else { seq![] };
            let (res, eof, cur) = m4v_read_iter(old_io.contents(), old_io.cursor() as int, first, pd0, false);
            &&& new_io.cursor() == cur
            &&& match res {
                Some(pd) => {
                    &&& r matches Ok(p) && {
                        &&& p.payload() == pd
                        &&& p.stream_index == 0
                        &&& p.pts == st.frame_count as i64
                        &&& p.dts == p.pts
                        &&& p.is_keyframe
                        &&& p.duration == 1
                        &&& p.time_base == st.time_base
                        &&& p.pos == -1
                    }
                    &&& new_self.state() == (M4vState { frame_count: (st.frame_count + 1) as u64, eof, ..st })
                },
                None => {
                    &&& r matches Err(e) && e.kind() == ErrorKind::Eof
                    &&& new_self.state() == (M4vState { eof, ..st })
                },
            }
        }
    }

    /// Reads the next frame: the units from one VOP to the next (with the
    /// header units before the first).
    pub fn read_m4v_packet(&mut self, io: &mut IoContext) -> (r: TaoResult<Packet>)
        requires
            io_in_range(*old(io)),
            old(self).state().frame_count < i64::MAX,
        ensures
            Self::read_post(*old(self), *final(self), *old(io), *final(io), r),
    {
        if self.eof {
            return Err(TaoError::Eof);
        }
        let ghost d = io.contents();
        let first = self.frame_count == 0;
        let mut packet_data: Vec<u8> = Vec::new();
        if first && self.extra_data_collected {
            crate::endian::push_all(&mut packet_data, self.extra_data.as_slice());
        }
        let ghost target = m4v_read_iter(d, io.cursor() as int, first, packet_data@, false);
        let mut found_vop = false;
        let mut at_end = false;
        loop
            invariant_except_break
                m4v_read_iter(d, io.cursor() as int, first, packet_data@, found_vop) == target,
                !at_end,
            invariant
                io.contents() == d,
                d == old(io).contents(),
                io_in_range(*io),
                *self == *old(self),
                !old(self).state().eof,
                first == (old(self).state().frame_count == 0),
                target == m4v_read_iter(
                    old(io).contents(),
                    old(io).cursor() as int,
                    first,
                    if first && old(self).state().collected { old(self).state().extra } else { seq![] },
                    false,
                ),
                old(self).state().frame_count < i64::MAX,
                found_vop ==> packet_data@.len() > 0,
            ensures
                target.1 == at_end,
                target.2 == io.cursor(),
                target.0 == (if packet_data@.len() == 0 || !found_vop { None::<Seq<u8>> } else { Some(packet_data@) }),
            decreases d.len() - io.cursor(),
        {
            let ghost c = io.cursor() as int;
            let (code, code_pos) = match find_next_start_code(io) {
                Some(x) => x,
                None => {
                    at_end = true;
                    break;
                },
            };
            proof {
                lemma_unit_progress(d, c);
            }
            if code == 0xB6 {
                if found_vop {
                    let _ = io.seek(SeekFrom::Start(code_pos));
                    break;
                }
                found_vop = true;
                push_unit(&mut packet_data, 0xB6, io);
            } else if code == 0xB1 {
                at_end = true;
                break;
            } else if first {
                push_unit(&mut packet_data, code, io);
            } else {
                let _ = read_until_next_start_code(io);
            }
        }
        self.eof = at_end;
        if packet_data.len() == 0 || !found_vop {
            return Err(TaoError::Eof);
        }
        let pts = self.frame_count as i64;
        self.frame_count = self.frame_count + 1;
        let mut pkt = Packet::from_vec(packet_data);
        pkt.stream_index = 0;
        pkt.pts = pts;
        pkt.dts = pts;
        pkt.is_keyframe = true;
        pkt.duration = 1;
        pkt.time_base = self.timebase;
        Ok(pkt)
    }
}

/// The first frame read after `open` on a fresh reader begins with the
/// header units that `open` gathered (the stream's extra data).
pub proof fn law_first_packet_starts_with_headers(
    s0: M4vDemuxer,
    s1: M4vDemuxer,
    s2: M4vDemuxer,
    io0: IoContext,
    io1: IoContext,
    io2: IoContext,
    r1: TaoResult<()>,
    r2: TaoResult<Packet>,
)
    requires
        s0.state().frame_count == 0,
        !s0.state().eof,
        M4vDemuxer::open_post(s0, s1, io0, io1, r1),
        r1 is Ok,
        M4vDemuxer::read_post(s1, s2, io1, io2, r2),
    ensures
        r2 matches Ok(p) ==> p.payload().len() >= s1.state().extra.len() && p.payload().subrange(
            0,
            s1.state().extra.len() as int,
        ) == s1.state().extra,
{
    let st = s1.state();
    lemma_read_iter_extends(io1.contents(), io1.cursor() as int, true, st.extra, false);
}

/// Appends a unit with `code` (its prefix, its code and the bytes up to the
/// next prefix) to `buf`.
fn push_unit(buf: &mut Vec<u8>, code: u8, io: &mut IoContext)
    requires
        io_in_range(*old(io)),
        old(io).cursor() >= 1,
    ensures
        final(io).contents() == old(io).contents(),
        io_in_range(*final(io)),
        final(buf)@ == old(buf)@ + unit_bytes(old(io).contents(), code, old(io).cursor() as int),
        final(io).cursor() == until_cursor(old(io).contents(), old(io).cursor() as int),
{
    buf.push(0);
    buf.push(0);
    buf.push(1);
    buf.push(code);
    let rest = read_until_next_start_code(io);
    crate::endian::push_all(buf, rest.as_slice());
    assert(buf@ =~= old(buf)@ + unit_bytes(old(io).contents(), code, old(io).cursor() as int));
}

impl Demuxer for M4vDemuxer {
    open spec fn open_admits(&self, io: IoContext) -> bool {
        true
    }

    fn open_admitted(&self, io: &IoContext) -> (b: bool)
        ensures
            b == self.open_admits(*io),
    {
        true
    }

    open spec fn format_kind(&self) -> FormatId {
        FormatId::Mpeg4Es
    }

    open spec fn stream_seq(&self) -> Seq<Stream> {
        self.stream_list()
    }

    open spec fn seek_admits(&self, stream_index: usize, timestamp: i64) -> bool {
        true
    }

    open spec fn read_admits(&self) -> bool {
        self.state().frame_count < i64::MAX
    }

    fn read_admitted(&self) -> (b: bool)
        ensures
            b == self.read_admits(),
    {
        self.frame_count < i64::MAX as u64
    }

    fn seek_admitted(&self, stream_index: usize, timestamp: i64) -> (b: bool)
        ensures
            b == self.seek_admits(stream_index, timestamp),
    {
        true
    }


    fn format_id(&self) -> (r: FormatId)
        ensures
            r == FormatId::Mpeg4Es,
    {
        FormatId::Mpeg4Es
    }

    fn name(&self) -> (r: &'static str)
        ensures
            r@ == "m4v"@,
    {
        "m4v"
    }

    fn open(&mut self, io: &mut IoContext) -> (r: TaoResult<()>)
        ensures
            Self::open_post(*old(self), *final(self), *old(io), *final(io), r),
    {
        self.open_m4v(io)
    }

    fn streams(&self) -> (r: &[Stream])
        ensures
            r@ == self.stream_list(),
    {
        self.streams.as_slice()
    }

    fn read_packet(&mut self, io: &mut IoContext) -> (r: TaoResult<Packet>)
        ensures
            Self::read_post(*old(self), *final(self), *old(io), *final(io), r),
    {
        self.read_m4v_packet(io)
    }

    /// Seeking is not supported: always `NotImplemented`, and nothing
    /// changes.
    fn seek(&mut self, io: &mut IoContext, stream_index: usize, timestamp: i64, flags: SeekFlags) -> (r: TaoResult<()>)
        ensures
            r matches Err(e) && e.kind() == ErrorKind::NotImplemented,
            *final(self) == *old(self),
            *final(io) == *old(io),
    {
        Err(not_implemented("M4V elementary streams do not support seeking"))
    }

    fn metadata(&self) -> (r: &[(String, String)])
        ensures
            r@ == self.meta(),
    {
        self.metadata.as_slice()
    }
}

} // verus!

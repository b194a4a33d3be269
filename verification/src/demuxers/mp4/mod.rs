//! MP4 / QuickTime: a tree of boxes; `moov` describes the tracks and their
//! sample tables, `mdat` holds the samples.

pub mod boxes;
pub mod sample_table;
pub mod walk;

use vstd::prelude::*;
use crate::probe::{
    FormatProbe, ProbeScore, SCORE_EXTENSION, SCORE_MAX, SCORE_MIME, str_views, ext_lower_in,
    filename_lower_ext_in, has_tag, tag_at,
};
use crate::format_id::FormatId;
use crate::error::{ErrorKind, TaoError, TaoResult, not_implemented};
use crate::io::{IoContext, SeekFrom, bytes_at, exhausted_cursor, readable};
use crate::media::{Packet, SeekFlags, Stream, Rational};
use crate::demuxer::{Demuxer, io_in_range};
use crate::demuxers::mp4::sample_table::{
    SampleTable, TableModel, sample_count_of, sample_offset_of, sample_pts_of, sample_size_of, is_sync_of,
};
use crate::demuxers::mp4::walk::{Flow, Mp4Parse, ParseModel, TrackModel, empty_parse, stream_is, top_walk, walk_top};

verus! {

/// What the MP4 probe answers: `ftyp` at offset 4 is certain; `moov`,
/// `mdat`, `free` or `wide` there is likely.
pub open spec fn mp4_probe_score(d: Seq<u8>, filename: Option<&str>) -> Option<ProbeScore> {
    if tag_at(d, 4, seq![0x66u8, 0x74, 0x79, 0x70]) {
        Some(SCORE_MAX)
    } else if tag_at(d, 4, seq![0x6Du8, 0x6F, 0x6F, 0x76]) || tag_at(d, 4, seq![0x6Du8, 0x64, 0x61, 0x74])
        || tag_at(d, 4, seq![0x66u8, 0x72, 0x65, 0x65]) || tag_at(d, 4, seq![0x77u8, 0x69, 0x64, 0x65]) {
        Some(SCORE_MIME)
    } else if ext_lower_in(filename, seq!["mp4"@, "m4a"@, "m4v"@, "mov"@, "3gp"@, "3g2"@]) {
        Some(SCORE_EXTENSION)
    } else {
        None
    }
}

/// Recogniser of MP4 and QuickTime files.
pub struct Mp4Probe;

impl FormatProbe for Mp4Probe {
    fn probe(&self, data: &[u8], filename: Option<&str>) -> (r: Option<ProbeScore>)
        ensures
            r == mp4_probe_score(data@, filename),
    {
        if has_tag(data, 4, &[0x66u8, 0x74, 0x79, 0x70]) {
            return Some(SCORE_MAX);
        }
        if has_tag(data, 4, &[0x6Du8, 0x6F, 0x6F, 0x76]) || has_tag(data, 4, &[0x6Du8, 0x64, 0x61, 0x74])
            || has_tag(data, 4, &[0x66u8, 0x72, 0x65, 0x65]) || has_tag(data, 4, &[0x77u8, 0x69, 0x64, 0x65]) {
            return Some(SCORE_MIME);
        }
        let exts: [&str; 6] = ["mp4", "m4a", "m4v", "mov", "3gp", "3g2"];
        assert(str_views(exts@) =~= seq!["mp4"@, "m4a"@, "m4v"@, "mov"@, "3gp"@, "3g2"@]);
        if filename_lower_ext_in(filename, exts.as_slice()) {
            return Some(SCORE_EXTENSION);
        }
        None
    }

    fn format_id(&self) -> (r: FormatId)
        ensures
            r == FormatId::Mp4,
    {
        FormatId::Mp4
    }
}

/// The error of a kind, with a message.
pub(crate) fn error_of_kind(k: ErrorKind, msg: &str) -> (e: TaoError)
    ensures
        e.kind() == k,
{
    match k {
        ErrorKind::Eof => TaoError::Eof,
        ErrorKind::InvalidData => TaoError::InvalidData(String::from_str(msg)),
        ErrorKind::Unsupported => TaoError::Unsupported(String::from_str(msg)),
        ErrorKind::InvalidArgument => TaoError::InvalidArgument(String::from_str(msg)),
        ErrorKind::NotImplemented => TaoError::NotImplemented(String::from_str(msg)),
        ErrorKind::FormatNotFound => TaoError::FormatNotFound(String::from_str(msg)),
        ErrorKind::StreamNotFound => TaoError::StreamNotFound(String::from_str(msg)),
        ErrorKind::Codec => TaoError::Codec(String::from_str(msg)),
        ErrorKind::Io => TaoError::Io(String::from_str(msg)),
    }
}

/// The next sample to read, scanning the tracks from `k` with the best
/// so far (track, sample, offset): the one at the lowest file offset among
/// the tracks with samples left, the first track on a tie; `None` when an
/// offset would overflow.
pub open spec fn next_from(
    tables: Seq<TableModel>,
    cur: Seq<u32>,
    k: nat,
    best: Option<(nat, u32, u64)>,
) -> Option<Option<(nat, u32)>>
    decreases tables.len() - k,
{
    if k >= tables.len() {
        Some(
            match best {
                Some((t, i, _)) => Some((t, i)),
                None => None,
            },
        )
    } else if cur[k as int] >= sample_count_of(tables[k as int]) {
        next_from(tables, cur, k + 1, best)
    } else {
        match sample_offset_of(tables[k as int], cur[k as int]) {
            None => None,
            Some(off) => {
                let nb = match best {
                    None => Some((k, cur[k as int], off)),
                    Some((t, i, bo)) => if off < bo {
                        Some((k, cur[k as int], off))
                    } else {
                        best
                    },
                };
                next_from(tables, cur, k + 1, nb)
            },
        }
    }
}

/// The sample `next_from` picks is a track's next sample, with samples
/// left and a computable offset.
pub proof fn lemma_next_from(tables: Seq<TableModel>, cur: Seq<u32>, k: nat, best: Option<(nat, u32, u64)>)
    requires
        cur.len() == tables.len(),
        best matches Some((t, i, o)) ==> t < tables.len() && i == cur[t as int] && i < sample_count_of(
            tables[t as int],
        ) && sample_offset_of(tables[t as int], i) == Some(o),
    ensures
        next_from(tables, cur, k, best) matches Some(Some((t, i))) ==> t < tables.len() && i == cur[t as int] && i
            < sample_count_of(tables[t as int]) && sample_offset_of(tables[t as int], i) is Some,
    decreases tables.len() - k,
{
    if k < tables.len() {
        if cur[k as int] >= sample_count_of(tables[k as int]) {
            lemma_next_from(tables, cur, k + 1, best);
        } else {
            match sample_offset_of(tables[k as int], cur[k as int]) {
                None => {},
                Some(off) => {
                    let nb = match best {
                        None => Some((k, cur[k as int], off)),
                        Some((t, i, bo)) => if off < bo {
                            Some((k, cur[k as int], off))
                        } else {
                            best
                        },
                    };
                    lemma_next_from(tables, cur, k + 1, nb);
                },
            }
        }
    }
}

/// Appends `k` zeros.
fn push_zeros(v: &mut Vec<u32>, k: usize)
    ensures
        final(v)@ == old(v)@ + Seq::new(k as nat, |i: int| 0u32),
{
    let mut j: usize = 0;
    while j < k
        invariant
            j <= k,
            v@ == old(v)@ + Seq::new(j as nat, |i: int| 0u32),
        decreases k - j,
    {
        v.push(0);
        j = j + 1;
        assert(v@ =~= old(v)@ + Seq::new(j as nat, |i: int| 0u32));
    }
}

/// Reader of MP4 and QuickTime files.
pub struct Mp4Demuxer {
    streams: Vec<Stream>,
    sample_tables: Vec<SampleTable>,
    current_sample: Vec<u32>,
    mdat_offset: u64,
    mdat_size: u64,
    file_duration: Option<(u64, u32)>,
    metadata: Vec<(String, String)>,
}

impl Mp4Demuxer {
    /// The streams.
    pub closed spec fn stream_list(&self) -> Seq<Stream> {
        self.streams@
    }

    /// The sample table of each stream.
    pub closed spec fn tables(&self) -> Seq<TableModel> {
        Seq::new(self.sample_tables@.len(), |i: int| self.sample_tables@[i]@)
    }

    /// The next sample of each stream.
    pub closed spec fn cursors(&self) -> Seq<u32> {
        self.current_sample@
    }

    /// Content offset and size of the last `mdat`.
    pub closed spec fn mdat(&self) -> (u64, u64) {
        (self.mdat_offset, self.mdat_size)
    }

    /// Movie duration and time scale, when the `mvhd` gave a time scale.
    pub closed spec fn duration_parts(&self) -> Option<(u64, u32)> {
        self.file_duration
    }

    /// The container metadata (none).
    pub closed spec fn meta(&self) -> Seq<(String, String)> {
        self.metadata@
    }

    /// One table and one next sample per stream.
    pub open spec fn wf(&self) -> bool {
        self.tables().len() == self.stream_list().len() && self.cursors().len() == self.stream_list().len()
    }

    /// A reader before `open`.
    pub fn new() -> (r: Self)
        ensures
            r.wf(),
            r.stream_list().len() == 0,
            r.mdat() == (0u64, 0u64),
            r.duration_parts() is None,
    {
        let r = Mp4Demuxer {
            streams: Vec::new(),
            sample_tables: Vec::new(),
            current_sample: Vec::new(),
            mdat_offset: 0,
            mdat_size: 0,
            file_duration: None,
            metadata: Vec::new(),
        };
        assert(r.tables() =~= Seq::<TableModel>::empty());
        r
    }

    /// A boxed reader, for a registry.
    pub fn create() -> (r: TaoResult<Box<dyn Demuxer>>)
        ensures
            r matches Ok(m) && m.format_kind() == FormatId::Mp4,
    {
        Ok(Box::new(Mp4Demuxer::new()))
    }

    /// The movie duration and its time scale, when the `mvhd` gave a time
    /// scale (the duration in seconds is their quotient).
    pub fn duration(&self) -> (r: Option<(u64, u32)>)
        ensures
            r == self.duration_parts(),
    {
        self.file_duration
    }

    /// What `open` does: walks the boxes from the cursor (see `top_walk`),
    /// adds a stream, a table and a next sample of 0 per track found, notes
    /// the last `mdat` and the movie duration, and fails as the walk fails,
    /// or with `InvalidData` when no stream is known after it. The input is
    /// left as it is.
    pub open spec fn open_post(old_self: Self, new_self: Self, old_io: IoContext, new_io: IoContext, r: TaoResult<()>) -> bool {
        let (m, f) = top_walk(empty_parse(), old_io.contents(), old_io.cursor() as int);
        let n = old_self.stream_list().len();
        &&& new_io == old_io
        &&& new_self.wf()
        &&& new_self.stream_list().len() == n + m.tracks.len()
        &&& new_self.stream_list().subrange(0, n as int) == old_self.stream_list()
        &&& forall|i: int| 0 <= i < m.tracks.len() ==> stream_is(#[trigger] new_self.stream_list()[n + i], m.tracks[i], (n + i) as nat)
        &&& new_self.tables() == old_self.tables() + Seq::new(m.tracks.len(), |i: int| m.tracks[i].table)
        &&& new_self.cursors() == old_self.cursors() + Seq::new(m.tracks.len(), |i: int| 0u32)
        &&& new_self.mdat() == (match m.mdat { Some(x) => x, None => old_self.mdat() })
        &&& new_self.duration_parts() == (match m.duration { Some(x) => Some(x), None => old_self.duration_parts() })
        &&& match f {
            Flow::Fail(k) => r matches Err(e) && e.kind() == k,
            Flow::Go => if new_self.stream_list().len() == 0 {
                r matches Err(e) && e.kind() == ErrorKind::InvalidData
            } else {
                r is Ok
            },
            Flow::Fault => true,
        }
    }

    /// Opens an MP4 file.
    pub fn open_mp4(&mut self, io: &mut IoContext) -> (r: TaoResult<()>)
        requires
            io_in_range(*old(io)),
            old(self).wf(),
            old(self).stream_list().len() <= 0x1_0000_0000_0000,
            old(io).contents().len() < 0x1_0000_0000_0000,
            top_walk(empty_parse(), old(io).contents(), old(io).cursor() as int).1 != Flow::Fault,
        ensures
            Self::open_post(*old(self), *final(self), *old(io), *final(io), r),
    {
        let d = io.data();
        let pos = io.tell() as u64;
        let mut parse = Mp4Parse::new();
        let base = self.streams.len();
        let f = walk_top(d, pos, &mut parse, base);
        let ghost m = parse.model();
        let ghost n = self.streams@.len();
        let ghost s0 = self.streams@;
        let ghost t0 = self.tables();
        let ghost c0 = self.current_sample@;
        let ghost tt0 = self.sample_tables@;
        let mdat = parse.mdat;
        let duration = parse.duration;
        let mut new_streams = parse.streams;
        let mut new_tables = parse.tables;
        push_zeros(&mut self.current_sample, new_tables.len());
        let ghost ns = new_streams@;
        let ghost nt = new_tables@;
        self.streams.append(&mut new_streams);
        self.sample_tables.append(&mut new_tables);
        assert(self.sample_tables@ == tt0 + nt);
        assert(self.streams@ == s0 + ns);
        if let Some((o, sz)) = mdat {
            self.mdat_offset = o;
            self.mdat_size = sz;
        }
        if duration.is_some() {
            self.file_duration = duration;
        }
        assert(self.tables() =~= t0 + Seq::new(m.tracks.len(), |i: int| m.tracks[i].table)) by {
            assert forall|i: int| 0 <= i < self.sample_tables@.len() implies #[trigger] self.tables()[i] == (t0 + Seq::new(
                m.tracks.len(),
                |i: int| m.tracks[i].table,
            ))[i] by {
                if i >= n {
                    assert(self.sample_tables@[i] == nt[i - n]);
                    assert(nt[i - n]@ == m.tracks[i - n].table);
                } else {
                    assert(self.sample_tables@[i] == tt0[i]);
                }
            }
        }
        assert(self.streams@.subrange(0, n as int) =~= s0);
        assert forall|i: int| 0 <= i < m.tracks.len() implies stream_is(
            #[trigger] self.streams@[n + i],
            m.tracks[i],
            (n + i) as nat,
        ) by {
            assert(self.streams@[n + i] == ns[i]);
        }
        match f {
            Flow::Fail(kind) => Err(error_of_kind(kind, "MP4: reading the boxes failed")),
            Flow::Fault => Err(error_of_kind(ErrorKind::InvalidData, "MP4: malformed box size")),
            Flow::Go => if self.streams.len() == 0 {
                Err(error_of_kind(ErrorKind::InvalidData, "MP4: no track found"))
            } else {
                Ok(())
            },
        }
    }

    /// The next sample to read (see `next_from`).
    pub open spec fn next_sample(&self) -> Option<Option<(nat, u32)>> {
        next_from(self.tables(), self.cursors(), 0, None)
    }

    /// Whether `read_packet` can run: the offsets and the chosen sample's
    /// time stay within 64 bits.
    pub open spec fn reads_ok(&self) -> bool {
        &&& self.wf()
        &&& match self.next_sample() {
            None => false,
            Some(None) => true,
            Some(Some((si, idx))) => sample_pts_of(self.tables()[si as int], idx) is Some,
        }
    }

    /// What `read_packet` does: with no sample left, `Eof`; else it seeks
    /// to the chosen sample's offset (`Io` past 63 bits) and reads its
    /// size; a whole read gives a packet of that stream with the sample's
    /// bytes, its presentation time as both timestamps, its keyframe flag
    /// and the stream's time base, and moves that stream on by one sample;
    /// a short read fails with `Eof` and moves nothing on.
    pub open spec fn read_post(old_self: Self, new_self: Self, old_io: IoContext, new_io: IoContext, r: TaoResult<Packet>) -> bool {
        match old_self.next_sample() {
            None => true,
            Some(None) => r == Err::<Packet, TaoError>(TaoError::Eof) && new_self == old_self && new_io == old_io,
            Some(Some((si, idx))) => {
                let t = old_self.tables()[si as int];
                let off = sample_offset_of(t, idx)->Some_0;
                let size = sample_size_of(t, idx as int);
                let d = old_io.contents();
                if off > i64::MAX {
                    r matches Err(e) && e.kind() == ErrorKind::Io && new_self == old_self && new_io == old_io
                } else if readable(d, off as nat, size as nat) {
                    &&& new_io.contents() == d
                    &&& new_io.cursor() == off + size
                    &&& r matches Ok(p) && {
                        &&& p.stream_index == si
                        &&& p.payload() == bytes_at(d, off as nat, size as nat)
                        &&& p.pts as int == sample_pts_of(t, idx)->Some_0
                        &&& p.dts == p.pts
                        &&& p.is_keyframe == is_sync_of(t, idx)
                        &&& p.time_base == old_self.stream_list()[si as int].time_base
                        &&& p.duration == 0
                        &&& p.pos == -1
                    }
                    &&& new_self.wf()
                    &&& new_self.stream_list() == old_self.stream_list()
                    &&& new_self.tables() == old_self.tables()
                    &&& new_self.cursors() == old_self.cursors().update(si as int, (idx + 1) as u32)
                    &&& new_self.mdat() == old_self.mdat()
                    &&& new_self.duration_parts() == old_self.duration_parts()
                } else {
                    &&& r == Err::<Packet, TaoError>(TaoError::Eof)
                    &&& new_self == old_self
                    &&& new_io.contents() == d
                    &&& new_io.cursor() == exhausted_cursor(d, off as nat)
                }
            },
        }
    }

    /// Finds the next sample (see `next_from`).
    fn find_next_sample(&self) -> (r: Option<Option<(usize, u32)>>)
        requires
            self.wf(),
        ensures
            match self.next_sample() {
                None => r is None,
                Some(None) => r == Some(None::<(usize, u32)>),
                Some(Some((t, i))) => r matches Some(Some((a, b))) && a as nat == t && b == i && t < self.tables().len(),
            },
    {
        let mut best: Option<(usize, u32, u64)> = None;
        let mut k: usize = 0;
        while k < self.sample_tables.len()
            invariant
                self.wf(),
                k <= self.sample_tables@.len(),
                best matches Some((t, _, _)) ==> t < k,
                self.next_sample() == next_from(
                    self.tables(),
                    self.cursors(),
                    k as nat,
                    match best {
                        Some((t, i, o)) => Some((t as nat, i, o)),
                        None => None,
                    },
                ),
            decreases self.sample_tables.len() - k,
        {
            let st = &self.sample_tables[k];
            let idx = self.current_sample[k];
            assert(self.tables()[k as int] == st@);
            if idx < st.sample_count() {
                let off = match st.checked_sample_offset(idx) {
                    Some(o) => o,
                    None => {
                        return None;
                    },
                };
                match best {
                    None => {
                        best = Some((k, idx, off));
                    },
                    Some((_, _, bo)) => {
                        if off < bo {
                            best = Some((k, idx, off));
                        }
                    },
                }
            }
            k = k + 1;
        }
        match best {
            Some((t, i, _)) => Some(Some((t, i))),
            None => Some(None),
        }
    }

    /// Reads the next sample as a packet.
    pub fn read_mp4_packet(&mut self, io: &mut IoContext) -> (r: TaoResult<Packet>)
        requires
            io_in_range(*old(io)),
            old(self).reads_ok(),
        ensures
            Self::read_post(*old(self), *final(self), *old(io), *final(io), r),
    {
        let (stream_idx, sample_idx) = match self.find_next_sample() {
            Some(Some(v)) => v,
            _ => {
                return Err(TaoError::Eof);
            },
        };
        proof {
            lemma_next_from(self.tables(), self.cursors(), 0, None);
            assert(self.next_sample() == Some(Some((stream_idx as nat, sample_idx))));
        }
        let st = &self.sample_tables[stream_idx];
        assert(self.tables()[stream_idx as int] == st@);
        let offset = st.sample_offset(sample_idx);
        let size = st.sample_size(sample_idx);
        let pts = st.sample_pts(sample_idx);
        let is_keyframe = st.is_sync_sample(sample_idx);
        if offset > i64::MAX as u64 {
            return Err(error_of_kind(ErrorKind::Io, "MP4: sample offset out of range"));
        }
        io.seek(SeekFrom::Start(offset))?;
        let data = io.read_bytes(size as usize)?;
        let mut pkt = Packet::from_vec(data);
        pkt.stream_index = stream_idx;
        pkt.pts = pts;
        pkt.dts = pts;
        pkt.is_keyframe = is_keyframe;
        pkt.time_base = self.streams[stream_idx].time_base;
        let ghost tb = self.tables();
        let c = self.current_sample[stream_idx];
        self.current_sample.set(stream_idx, c + 1);
        assert(self.tables() =~= tb);
        Ok(pkt)
    }
}

impl Demuxer for Mp4Demuxer {
    open spec fn open_admits(&self, io: IoContext) -> bool {
        &&& self.wf()
        &&& io.contents().len() < 0x1_0000_0000_0000
        &&& 0x40_0000_0000_0000 <= usize::MAX
        &&& self.stream_list().len() <= 0x1_0000_0000_0000
        &&& top_walk(empty_parse(), io.contents(), io.cursor() as int).1 != Flow::Fault
    }

    fn open_admitted(&self, io: &IoContext) -> (b: bool)
        ensures
            b == self.open_admits(*io),
    {
        if self.sample_tables.len() != self.streams.len() || self.current_sample.len() != self.streams.len()
            || self.streams.len() as u64 > 0x1_0000_0000_0000 {
            return false;
        }
        let d = io.data();
        if d.len() as u64 >= 0x1_0000_0000_0000 || (usize::MAX as u64) < 0x40_0000_0000_0000 {
            return false;
        }
        let mut parse = Mp4Parse::new();
        match walk_top(d, io.tell() as u64, &mut parse, 0) {
            Flow::Fault => false,
            _ => true,
        }
    }

    open spec fn format_kind(&self) -> FormatId {
        FormatId::Mp4
    }

    open spec fn stream_seq(&self) -> Seq<Stream> {
        self.stream_list()
    }

    open spec fn seek_admits(&self, stream_index: usize, timestamp: i64) -> bool {
        true
    }

    open spec fn read_admits(&self) -> bool {
        self.reads_ok()
    }

    fn read_admitted(&self) -> (b: bool)
        ensures
            b == self.read_admits(),
    {
        if self.sample_tables.len() != self.streams.len() || self.current_sample.len() != self.streams.len() {
            return false;
        }
        match self.find_next_sample() {
            None => false,
            Some(None) => true,
            Some(Some((si, idx))) => {
                assert(self.tables()[si as int] == self.sample_tables@[si as int]@);
                self.sample_tables[si].checked_sample_pts(idx).is_some()
            },
        }
    }

    fn seek_admitted(&self, stream_index: usize, timestamp: i64) -> (b: bool)
        ensures
            b == self.seek_admits(stream_index, timestamp),
    {
        true
    }

    fn format_id(&self) -> (r: FormatId)
        ensures
            r == FormatId::Mp4,
    {
        FormatId::Mp4
    }

    fn name(&self) -> (r: &'static str)
        ensures
            r@ == "mp4"@,
    {
        "mp4"
    }

    fn open(&mut self, io: &mut IoContext) -> (r: TaoResult<()>)
        ensures
            Self::open_post(*old(self), *final(self), *old(io), *final(io), r),
    {
        self.open_mp4(io)
    }

    fn streams(&self) -> (r: &[Stream])
        ensures
            r@ == self.stream_list(),
    {
        self.streams.as_slice()
    }

    fn read_packet(&mut self, io: &mut IoContext) -> (r: TaoResult<Packet>)
        ensures
            Self::read_post(*old(self), *final(self), *old(io), *final(io), r),
    {
        self.read_mp4_packet(io)
    }

    /// Seeking is not implemented: always `NotImplemented`, and nothing
    /// changes.
    fn seek(&mut self, io: &mut IoContext, stream_index: usize, timestamp: i64, flags: SeekFlags) -> (r: TaoResult<()>)
        ensures
            r matches Err(e) && e.kind() == ErrorKind::NotImplemented,
            *final(self) == *old(self),
            *final(io) == *old(io),
    {
        Err(not_implemented("MP4 seeking is not implemented"))
    }

    fn metadata(&self) -> (r: &[(String, String)])
        ensures
            r@ == self.meta(),
    {
        self.metadata.as_slice()
    }
}

} // verus!

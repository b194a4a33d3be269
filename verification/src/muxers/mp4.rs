//! MP4 writer: `ftyp`, then an `mdat` whose packets follow its header, then
//! the `moov` built at the end from what was collected per sample (offset,
//! size, duration, composition offset, keyframe flag).
//!
//! Every box is a 32-bit big-endian size (header included, kept to its low
//! 32 bits), its FourCC and its content.

use vstd::prelude::*;
use crate::error::{ErrorKind, TaoResult, invalid_argument, invalid_data};
use crate::demuxers::mp4::error_of_kind;
use crate::demuxers::mp4::sample_table::fourcc_codec;
use crate::endian::be32;
use crate::io::{IoContext, SeekFrom, written};
use crate::muxer::{Muxer, out_in_range};
use crate::format_id::FormatId;
use crate::media::Packet;
use crate::packet_data::bytes_as_slice;
use crate::endian::{be16_bytes, be32_bytes, be64_bytes, push_be16, push_be32, push_tag, push_all, copy_bytes, u64_to_be};
use crate::media::{CodecId, MediaType, Stream, StreamParams, codec_media_type};

verus! {

/// `n` zero bytes.
pub open spec fn zeros(n: nat) -> Seq<u8> {
    Seq::new(n, |i: int| 0u8)
}

/// A box: size (kept to 32 bits), FourCC, content.
pub open spec fn box_bytes(tag: Seq<u8>, content: Seq<u8>) -> Seq<u8> {
    be32_bytes(((8 + content.len()) % 0x1_0000_0000) as u32) + tag + content
}

/// Appends `n` zero bytes.
fn push_zeros(buf: &mut Vec<u8>, n: usize)
    ensures
        final(buf)@ == old(buf)@ + zeros(n as nat),
{
    let mut i: usize = 0;
    while i < n
        invariant
            i <= n,
            buf@ == old(buf)@ + zeros(i as nat),
        decreases n - i,
    {
        buf.push(0u8);
        i = i + 1;
        assert(buf@ =~= old(buf)@ + zeros(i as nat));
    }
}

/// The box of `content` with FourCC `tag`.
fn boxed(tag: &[u8; 4], content: &Vec<u8>) -> (r: Vec<u8>)
    ensures
        r@ == box_bytes(tag@, content@),
{
    let mut buf: Vec<u8> = Vec::new();
    let l = content.len() as u64;
    let sz = ((l % 0x1_0000_0000 + 8) % 0x1_0000_0000) as u32;
    proof {
        vstd::arithmetic::div_mod::lemma_add_mod_noop(l as int, 8, 0x1_0000_0000);
    }
    push_be32(&mut buf, sz);
    push_tag(&mut buf, tag);
    push_all(&mut buf, content.as_slice());
    assert(buf@ =~= box_bytes(tag@, content@));
    buf
}

/// The identity matrix of the movie and track headers.
pub open spec fn unity_matrix() -> Seq<u8> {
    be32_bytes(0x0001_0000) + zeros(12) + be32_bytes(0x0001_0000) + zeros(12) + be32_bytes(0x4000_0000)
}

fn push_unity_matrix(buf: &mut Vec<u8>)
    ensures
        final(buf)@ == old(buf)@ + unity_matrix(),
{
    push_be32(buf, 0x0001_0000);
    push_zeros(buf, 12);
    push_be32(buf, 0x0001_0000);
    push_zeros(buf, 12);
    push_be32(buf, 0x4000_0000);
    assert(buf@ =~= old(buf)@ + unity_matrix());
}

/// The `ftyp` box: major brand `isom`, minor version 0x200, compatible
/// brands `isom`, `iso2`, `mp41`.
pub open spec fn ftyp_bytes() -> Seq<u8> {
    box_bytes(
        seq![0x66u8, 0x74, 0x79, 0x70],
        seq![0x69u8, 0x73, 0x6F, 0x6D] + be32_bytes(0x200) + seq![0x69u8, 0x73, 0x6F, 0x6D, 0x69, 0x73, 0x6F, 0x32, 0x6D,
            0x70, 0x34, 0x31],
    )
}

/// One sample as collected: where it starts in the file, its size, its
/// duration, composition offset and keyframe flag.
#[derive(Clone, Copy)]
pub struct SampleEntry {
    pub offset: u64,
    pub size: u32,
    pub duration: u32,
    pub cts_offset: i32,
    pub is_keyframe: bool,
}

/// The big-endian bytes of each value, one after the other.
pub open spec fn be32_list(s: Seq<u32>) -> Seq<u8>
    decreases s.len(),
{
    if s.len() == 0 {
        Seq::empty()
    } else {
        be32_list(s.drop_last()) + be32_bytes(s.last())
    }
}

/// Count and value pairs, each as two big-endian 32-bit values.
pub open spec fn pair_list(s: Seq<(u32, u32)>) -> Seq<u8>
    decreases s.len(),
{
    if s.len() == 0 {
        Seq::empty()
    } else {
        pair_list(s.drop_last()) + be32_bytes(s.last().0) + be32_bytes(s.last().1)
    }
}

/// Run-length coding: a run of equal values is one (count, value) pair.
pub open spec fn rle(s: Seq<u32>) -> Seq<(u32, u32)>
    decreases s.len(),
{
    if s.len() == 0 {
        Seq::empty()
    } else {
        let r = rle(s.drop_last());
        if r.len() > 0 && r.last().1 == s.last() {
            r.update(r.len() - 1, ((r.last().0 + 1) as u32, s.last()))
        } else {
            r.push((1u32, s.last()))
        }
    }
}

/// The sizes of the samples.
pub open spec fn sizes_of(s: Seq<SampleEntry>) -> Seq<u32> {
    s.map_values(|e: SampleEntry| e.size)
}

/// The durations of the samples.
pub open spec fn durations_of(s: Seq<SampleEntry>) -> Seq<u32> {
    s.map_values(|e: SampleEntry| e.duration)
}

/// The composition offsets of the samples, as their 32-bit patterns.
pub open spec fn cts_of(s: Seq<SampleEntry>) -> Seq<u32> {
    s.map_values(|e: SampleEntry| e.cts_offset as u32)
}

/// The 1-based numbers of the keyframes.
pub open spec fn keyframes_of(s: Seq<SampleEntry>) -> Seq<u32>
    decreases s.len(),
{
    if s.len() == 0 {
        Seq::empty()
    } else if s.last().is_keyframe {
        keyframes_of(s.drop_last()).push(s.len() as u32)
    } else {
        keyframes_of(s.drop_last())
    }
}

/// Whether a sample starts past 32 bits (then `co64` is written).
pub open spec fn needs_co64(s: Seq<SampleEntry>) -> bool {
    exists|i: int| 0 <= i < s.len() && s[i].offset > u32::MAX
}

/// The offsets of the samples as 64-bit or truncated 32-bit values.
pub open spec fn offsets_bytes(s: Seq<SampleEntry>, wide: bool) -> Seq<u8>
    decreases s.len(),
{
    if s.len() == 0 {
        Seq::empty()
    } else {
        offsets_bytes(s.drop_last(), wide) + (if wide {
            be64_bytes(s.last().offset)
        } else {
            be32_bytes(s.last().offset as u32)
        })
    }
}

/// The sum of the sample durations.
pub open spec fn duration_sum(s: Seq<SampleEntry>) -> nat
    decreases s.len(),
{
    if s.len() == 0 {
        0
    } else {
        duration_sum(s.drop_last()) + s.last().duration as nat
    }
}

/// `stts`: the durations, run-length coded.
pub open spec fn stts_bytes(s: Seq<SampleEntry>) -> Seq<u8> {
    let e = rle(durations_of(s));
    box_bytes(seq![0x73u8, 0x74, 0x74, 0x73], zeros(4) + be32_bytes(e.len() as u32) + pair_list(e))
}

/// `ctts`: the composition offsets, run-length coded.
pub open spec fn ctts_bytes(s: Seq<SampleEntry>) -> Seq<u8> {
    let e = rle(cts_of(s));
    box_bytes(seq![0x63u8, 0x74, 0x74, 0x73], zeros(4) + be32_bytes(e.len() as u32) + pair_list(e))
}

/// `stsc`: one sample per chunk.
pub open spec fn stsc_bytes() -> Seq<u8> {
    box_bytes(
        seq![0x73u8, 0x74, 0x73, 0x63],
        zeros(4) + be32_bytes(1) + be32_bytes(1) + be32_bytes(1) + be32_bytes(1),
    )
}

/// `stsz`: each sample's size.
pub open spec fn stsz_bytes(s: Seq<SampleEntry>) -> Seq<u8> {
    box_bytes(
        seq![0x73u8, 0x74, 0x73, 0x7A],
        zeros(4) + be32_bytes(0) + be32_bytes(s.len() as u32) + be32_list(sizes_of(s)),
    )
}

/// `stco` (or `co64` when a sample starts past 32 bits): each sample's
/// offset, one chunk per sample.
pub open spec fn stco_bytes(s: Seq<SampleEntry>) -> Seq<u8> {
    let wide = needs_co64(s);
    box_bytes(
        if wide { seq![0x63u8, 0x6F, 0x36, 0x34] } else { seq![0x73u8, 0x74, 0x63, 0x6F] },
        zeros(4) + be32_bytes(s.len() as u32) + offsets_bytes(s, wide),
    )
}

/// `stss`: the keyframes.
pub open spec fn stss_bytes(s: Seq<SampleEntry>) -> Seq<u8> {
    let k = keyframes_of(s);
    box_bytes(seq![0x73u8, 0x74, 0x73, 0x73], zeros(4) + be32_bytes(k.len() as u32) + be32_list(k))
}

/// The `ftyp` box.
fn ftyp() -> (r: Vec<u8>)
    ensures
        r@ == ftyp_bytes(),
{
    let mut c: Vec<u8> = Vec::new();
    push_tag(&mut c, &[0x69, 0x73, 0x6F, 0x6D]);
    push_be32(&mut c, 0x200);
    push_tag(&mut c, &[0x69, 0x73, 0x6F, 0x6D]);
    push_tag(&mut c, &[0x69, 0x73, 0x6F, 0x32]);
    push_tag(&mut c, &[0x6D, 0x70, 0x34, 0x31]);
    assert(c@ =~= seq![0x69u8, 0x73, 0x6F, 0x6D] + be32_bytes(0x200) + seq![0x69u8, 0x73, 0x6F, 0x6D, 0x69, 0x73,
        0x6F, 0x32, 0x6D, 0x70, 0x34, 0x31]);
    boxed(&[0x66, 0x74, 0x79, 0x70], &c)
}

/// The run-length coding of `vals` (see `rle`).
pub fn rle_values(vals: &Vec<u32>) -> (pairs: Vec<(u32, u32)>)
    requires
        vals@.len() < u32::MAX,
    ensures
        pairs@ == rle(vals@),
{
    let mut pairs: Vec<(u32, u32)> = Vec::new();
    let mut i: usize = 0;
    while i < vals.len()
        invariant
            i <= vals@.len(),
            vals@.len() < u32::MAX,
            pairs@ == rle(vals@.subrange(0, i as int)),
            forall|k: int| 0 <= k < pairs@.len() ==> pairs@[k].0 <= i,
        decreases vals.len() - i,
    {
        let v = vals[i];
        assert(vals@.subrange(0, i + 1).drop_last() =~= vals@.subrange(0, i as int));
        let n = pairs.len();
        if n > 0 && pairs[n - 1].1 == v {
            let (c, _) = pairs[n - 1];
            pairs.set(n - 1, (c + 1, v));
        } else {
            pairs.push((1, v));
        }
        i = i + 1;
    }
    assert(vals@.subrange(0, vals@.len() as int) =~= vals@);
    pairs
}

/// The run-length coded sample durations, as `stts` holds them.
pub fn rle_durations(samples: &Vec<SampleEntry>) -> (r: Vec<(u32, u32)>)
    requires
        samples@.len() < u32::MAX,
    ensures
        r@ == rle(durations_of(samples@)),
{
    let mut d: Vec<u32> = Vec::new();
    let mut i: usize = 0;
    while i < samples.len()
        invariant
            i <= samples@.len(),
            d@ == durations_of(samples@.subrange(0, i as int)),
        decreases samples.len() - i,
    {
        d.push(samples[i].duration);
        i = i + 1;
        assert(d@ =~= durations_of(samples@.subrange(0, i as int)));
    }
    assert(samples@.subrange(0, samples@.len() as int) =~= samples@);
    rle_values(&d)
}

/// Writes the `ftyp` box at the cursor.
pub fn write_ftyp(io: &mut IoContext) -> (r: TaoResult<()>)
    requires
        out_in_range(*old(io)),
    ensures
        r is Ok,
        final(io).contents() == written(old(io).contents(), old(io).cursor(), ftyp_bytes()),
        final(io).cursor() == old(io).cursor() + 28,
{
    let f = ftyp();
    io.write_all(f.as_slice())
}

/// Appends the run-length coding of `vals` as count and value pairs, and
/// gives the number of pairs.
fn push_rle(buf: &mut Vec<u8>, vals: &Vec<u32>) -> (n: u32)
    requires
        vals@.len() < u32::MAX,
    ensures
        final(buf)@ == old(buf)@ + pair_list(rle(vals@)),
        n == rle(vals@).len() as u32,
{
    let pairs = rle_values(vals);
    let mut j: usize = 0;
    while j < pairs.len()
        invariant
            j <= pairs@.len(),
            buf@ == old(buf)@ + pair_list(pairs@.subrange(0, j as int)),
        decreases pairs.len() - j,
    {
        assert(pairs@.subrange(0, j + 1).drop_last() =~= pairs@.subrange(0, j as int));
        push_be32(buf, pairs[j].0);
        push_be32(buf, pairs[j].1);
        j = j + 1;
    }
    assert(pairs@.subrange(0, pairs@.len() as int) =~= pairs@);
    pairs.len() as u32
}

/// Appends each value big-endian.
fn push_be32_list(buf: &mut Vec<u8>, vals: &Vec<u32>)
    ensures
        final(buf)@ == old(buf)@ + be32_list(vals@),
{
    let mut j: usize = 0;
    while j < vals.len()
        invariant
            j <= vals@.len(),
            buf@ == old(buf)@ + be32_list(vals@.subrange(0, j as int)),
        decreases vals.len() - j,
    {
        assert(vals@.subrange(0, j + 1).drop_last() =~= vals@.subrange(0, j as int));
        push_be32(buf, vals[j]);
        j = j + 1;
    }
    assert(vals@.subrange(0, vals@.len() as int) =~= vals@);
}

/// The `stts` box.
fn stts(samples: &Vec<SampleEntry>) -> (r: Vec<u8>)
    requires
        samples@.len() < u32::MAX,
    ensures
        r@ == stts_bytes(samples@),
{
    let mut d: Vec<u32> = Vec::new();
    let mut i: usize = 0;
    while i < samples.len()
        invariant
            i <= samples@.len(),
            d@ == durations_of(samples@.subrange(0, i as int)),
        decreases samples.len() - i,
    {
        d.push(samples[i].duration);
        i = i + 1;
        assert(d@ =~= durations_of(samples@.subrange(0, i as int)));
    }
    assert(samples@.subrange(0, samples@.len() as int) =~= samples@);
    let mut body: Vec<u8> = Vec::new();
    let mut tail: Vec<u8> = Vec::new();
    let n = push_rle(&mut tail, &d);
    push_zeros(&mut body, 4);
    push_be32(&mut body, n);
    push_all(&mut body, tail.as_slice());
    assert(body@ =~= zeros(4) + be32_bytes(n) + pair_list(rle(durations_of(samples@))));
    boxed(&[0x73, 0x74, 0x74, 0x73], &body)
}

/// The `ctts` box.
fn ctts(samples: &Vec<SampleEntry>) -> (r: Vec<u8>)
    requires
        samples@.len() < u32::MAX,
    ensures
        r@ == ctts_bytes(samples@),
{
    let mut d: Vec<u32> = Vec::new();
    let mut i: usize = 0;
    while i < samples.len()
        invariant
            i <= samples@.len(),
            d@ == cts_of(samples@.subrange(0, i as int)),
        decreases samples.len() - i,
    {
        d.push(samples[i].cts_offset as u32);
        i = i + 1;
        assert(d@ =~= cts_of(samples@.subrange(0, i as int)));
    }
    assert(samples@.subrange(0, samples@.len() as int) =~= samples@);
    let mut body: Vec<u8> = Vec::new();
    let mut tail: Vec<u8> = Vec::new();
    let n = push_rle(&mut tail, &d);
    push_zeros(&mut body, 4);
    push_be32(&mut body, n);
    push_all(&mut body, tail.as_slice());
    assert(body@ =~= zeros(4) + be32_bytes(n) + pair_list(rle(cts_of(samples@))));
    boxed(&[0x63, 0x74, 0x74, 0x73], &body)
}

/// The `stsc` box.
fn stsc() -> (r: Vec<u8>)
    ensures
        r@ == stsc_bytes(),
{
    let mut body: Vec<u8> = Vec::new();
    push_zeros(&mut body, 4);
    push_be32(&mut body, 1);
    push_be32(&mut body, 1);
    push_be32(&mut body, 1);
    push_be32(&mut body, 1);
    boxed(&[0x73, 0x74, 0x73, 0x63], &body)
}

/// The `stsz` box.
fn stsz(samples: &Vec<SampleEntry>) -> (r: Vec<u8>)
    ensures
        r@ == stsz_bytes(samples@),
{
    let mut d: Vec<u32> = Vec::new();
    let mut i: usize = 0;
    while i < samples.len()
        invariant
            i <= samples@.len(),
            d@ == sizes_of(samples@.subrange(0, i as int)),
        decreases samples.len() - i,
    {
        d.push(samples[i].size);
        i = i + 1;
        assert(d@ =~= sizes_of(samples@.subrange(0, i as int)));
    }
    assert(samples@.subrange(0, samples@.len() as int) =~= samples@);
    let mut body: Vec<u8> = Vec::new();
    push_zeros(&mut body, 4);
    push_be32(&mut body, 0);
    push_be32(&mut body, samples.len() as u32);
    push_be32_list(&mut body, &d);
    boxed(&[0x73, 0x74, 0x73, 0x7A], &body)
}

/// The `stco` or `co64` box.
fn stco(samples: &Vec<SampleEntry>) -> (r: Vec<u8>)
    ensures
        r@ == stco_bytes(samples@),
{
    let mut wide = false;
    let mut i: usize = 0;
    while i < samples.len()
        invariant
            i <= samples@.len(),
            wide == exists|k: int| 0 <= k < i && samples@[k].offset > u32::MAX,
        decreases samples.len() - i,
    {
        if samples[i].offset > u32::MAX as u64 {
            wide = true;
        }
        i = i + 1;
    }
    let mut tail: Vec<u8> = Vec::new();
    let mut j: usize = 0;
    while j < samples.len()
        invariant
            j <= samples@.len(),
            tail@ == offsets_bytes(samples@.subrange(0, j as int), wide),
        decreases samples.len() - j,
    {
        assert(samples@.subrange(0, j + 1).drop_last() =~= samples@.subrange(0, j as int));
        if wide {
            let b = u64_to_be(samples[j].offset);
            push_all(&mut tail, &b);
        } else {
            push_be32(&mut tail, samples[j].offset as u32);
        }
        j = j + 1;
    }
    assert(samples@.subrange(0, samples@.len() as int) =~= samples@);
    let mut body: Vec<u8> = Vec::new();
    push_zeros(&mut body, 4);
    push_be32(&mut body, samples.len() as u32);
    push_all(&mut body, tail.as_slice());
    if wide {
        boxed(&[0x63, 0x6F, 0x36, 0x34], &body)
    } else {
        boxed(&[0x73, 0x74, 0x63, 0x6F], &body)
    }
}

/// The `stss` box.
fn stss(samples: &Vec<SampleEntry>) -> (r: Vec<u8>)
    requires
        samples@.len() < u32::MAX,
    ensures
        r@ == stss_bytes(samples@),
{
    let mut k: Vec<u32> = Vec::new();
    let mut i: usize = 0;
    while i < samples.len()
        invariant
            i <= samples@.len(),
            samples@.len() < u32::MAX,
            k@ == keyframes_of(samples@.subrange(0, i as int)),
            k@.len() <= i,
        decreases samples.len() - i,
    {
        assert(samples@.subrange(0, i + 1).drop_last() =~= samples@.subrange(0, i as int));
        if samples[i].is_keyframe {
            k.push((i + 1) as u32);
        }
        i = i + 1;
    }
    assert(samples@.subrange(0, samples@.len() as int) =~= samples@);
    let mut body: Vec<u8> = Vec::new();
    push_zeros(&mut body, 4);
    push_be32(&mut body, k.len() as u32);
    push_be32_list(&mut body, &k);
    boxed(&[0x73, 0x74, 0x73, 0x73], &body)
}

/// What a track keeps of its stream's parameters: width and height of a
/// video stream, sample rate and channels of an audio one.
#[derive(Clone, Copy)]
pub enum TrackParams {
    Video(u32, u32),
    Audio(u32, u32),
    Other,
}

/// A track as collected: its stream's index, media type, codec, parameters
/// and codec private data, its time scale, its samples and the last DTS
/// written (-1 before the first).
pub struct TrackView {
    pub stream_index: usize,
    pub media_type: MediaType,
    pub codec_id: CodecId,
    pub params: TrackParams,
    pub extra: Seq<u8>,
    pub timescale: u32,
    pub samples: Seq<SampleEntry>,
    pub last_dts: i64,
}

/// The `mvhd` box: time scale 1000, the given duration (saturated to 32
/// bits), and the next track ID after `n` tracks.
pub open spec fn mvhd_bytes(dur: nat, n: u32) -> Seq<u8> {
    box_bytes(
        seq![0x6Du8, 0x76, 0x68, 0x64],
        zeros(12) + be32_bytes(1000) + be32_bytes(if dur > u32::MAX { u32::MAX } else { dur as u32 }) + be32_bytes(
            0x0001_0000,
        ) + be16_bytes(0x0100) + zeros(10) + unity_matrix() + zeros(24) + be32_bytes((n + 1) as u32),
    )
}

/// A video track's width and height, (0, 0) for others.
pub open spec fn track_size(t: TrackView) -> (u32, u32) {
    match t.params {
        TrackParams::Video(w, h) => (w, h),
        _ => (0, 0),
    }
}

/// The `tkhd` box of track `t` with ID `id`.
pub open spec fn tkhd_bytes(t: TrackView, id: u32) -> Seq<u8> {
    let (w, h) = track_size(t);
    box_bytes(
        seq![0x74u8, 0x6B, 0x68, 0x64],
        seq![0u8, 0, 0, 3] + zeros(8) + be32_bytes(id) + zeros(4) + be32_bytes(duration_sum(t.samples) as u32)
            + zeros(12) + (if t.media_type == MediaType::Audio { be16_bytes(0x0100) } else { zeros(2) }) + zeros(2)
            + unity_matrix() + be32_bytes(w << 16u32) + be32_bytes(h << 16u32),
    )
}

/// The `mdhd` box: the track's time scale and duration, language `und`.
pub open spec fn mdhd_bytes(t: TrackView) -> Seq<u8> {
    box_bytes(
        seq![0x6Du8, 0x64, 0x68, 0x64],
        zeros(12) + be32_bytes(t.timescale) + be32_bytes(duration_sum(t.samples) as u32) + be16_bytes(0x55C4)
            + zeros(2),
    )
}

/// The handler type and name of a media type.
pub open spec fn handler_of(m: MediaType) -> (Seq<u8>, Seq<u8>) {
    match m {
        MediaType::Video => (seq![0x76u8, 0x69, 0x64, 0x65], seq![0x56u8, 0x69, 0x64, 0x65, 0x6F, 0x48, 0x61, 0x6E, 0x64, 0x6C, 0x65, 0x72, 0x00]),
        MediaType::Audio => (seq![0x73u8, 0x6F, 0x75, 0x6E], seq![0x53u8, 0x6F, 0x75, 0x6E, 0x64, 0x48, 0x61, 0x6E, 0x64, 0x6C, 0x65, 0x72, 0x00]),
        _ => (seq![0x6Du8, 0x65, 0x74, 0x61], seq![0x4Du8, 0x65, 0x74, 0x61, 0x48, 0x61, 0x6E, 0x64, 0x6C, 0x65, 0x72, 0x00]),
    }
}

/// The `hdlr` box.
pub open spec fn hdlr_bytes(m: MediaType) -> Seq<u8> {
    let (ty, name) = handler_of(m);
    box_bytes(seq![0x68u8, 0x64, 0x6C, 0x72], zeros(8) + ty + zeros(12) + name)
}

/// The `vmhd` box.
pub open spec fn vmhd_bytes() -> Seq<u8> {
    box_bytes(seq![0x76u8, 0x6D, 0x68, 0x64], seq![0u8, 0, 0, 1] + zeros(8))
}

/// The `smhd` box.
pub open spec fn smhd_bytes() -> Seq<u8> {
    box_bytes(seq![0x73u8, 0x6D, 0x68, 0x64], zeros(8))
}

/// The `dinf` box: a `dref` with one self-contained `url ` entry.
pub open spec fn dinf_bytes() -> Seq<u8> {
    box_bytes(seq![0x64u8, 0x69, 0x6E, 0x66], box_bytes(seq![0x64u8, 0x72, 0x65, 0x66], zeros(4) + be32_bytes(1) + box_bytes(seq![0x75u8, 0x72, 0x6C, 0x20], seq![0u8, 0, 0, 1])))
}

/// The sample entry FourCC of a codec MP4 carries.
pub open spec fn mp4_fourcc(c: CodecId) -> Option<Seq<u8>> {
    match c {
        CodecId::H264 => Some(seq![0x61u8, 0x76, 0x63, 0x31]),
        CodecId::H265 => Some(seq![0x68u8, 0x76, 0x63, 0x31]),
        CodecId::Aac => Some(seq![0x6Du8, 0x70, 0x34, 0x61]),
        CodecId::Mp3 => Some(seq![0x2Eu8, 0x6D, 0x70, 0x33]),
        CodecId::Opus => Some(seq![0x4Fu8, 0x70, 0x75, 0x73]),
        CodecId::Flac => Some(seq![0x66u8, 0x4C, 0x61, 0x43]),
        CodecId::Vp9 => Some(seq![0x76u8, 0x70, 0x30, 0x39]),
        CodecId::Av1 => Some(seq![0x61u8, 0x76, 0x30, 0x31]),
        _ => None,
    }
}

/// An MPEG-4 descriptor length: seven bits a byte, high bit on every byte
/// but the last; one to four bytes.
pub open spec fn desc_len(len: nat) -> Seq<u8> {
    if len < 0x80 {
        seq![len as u8]
    } else if len < 0x4000 {
        seq![(0x80 + len / 0x80) as u8, (len % 0x80) as u8]
    } else if len < 0x20_0000 {
        seq![(0x80 + len / 0x4000) as u8, (0x80 + (len / 0x80) % 0x80) as u8, (len % 0x80) as u8]
    } else {
        seq![
            (((len / 0x20_0000) % 256) as u8 | 0x80u8),
            (0x80 + (len / 0x4000) % 0x80) as u8,
            (0x80 + (len / 0x80) % 0x80) as u8,
            (len % 0x80) as u8,
        ]
    }
}

/// The decoder configuration descriptor's content: AAC LC, an audio
/// stream, 128 kbit/s, and the codec private data when there is any.
pub open spec fn dec_config_bytes(extra: Seq<u8>) -> Seq<u8> {
    seq![0x40u8, 0x15, 0, 0, 0, 0x00, 0x01, 0xF4, 0x00, 0x00, 0x01, 0xF4, 0x00] + (if extra.len() > 0 {
        seq![0x05u8] + desc_len(extra.len()) + extra
    } else {
        Seq::empty()
    })
}

/// The ES descriptor's content.
pub open spec fn es_desc_bytes(extra: Seq<u8>) -> Seq<u8> {
    let dc = dec_config_bytes(extra);
    seq![0u8, 1, 0, 0x04] + desc_len(dc.len()) + dc + seq![0x06u8] + desc_len(1) + seq![0x02u8]
}

/// The `esds` box.
pub open spec fn esds_bytes(extra: Seq<u8>) -> Seq<u8> {
    let es = es_desc_bytes(extra);
    box_bytes(seq![0x65u8, 0x73, 0x64, 0x73], zeros(4) + seq![0x03u8] + desc_len(es.len()) + es)
}

/// The sample entry of a track; `Unsupported` for a codec MP4 does not
/// carry or a track neither video nor audio, `InvalidData` when a video
/// (audio) track lacks video (audio) parameters.
pub open spec fn sample_entry(t: TrackView) -> Result<Seq<u8>, ErrorKind> {
    if t.media_type == MediaType::Video {
        match t.params {
            TrackParams::Video(w, h) => match mp4_fourcc(t.codec_id) {
                None => Err(ErrorKind::Unsupported),
                Some(f) => Ok(
                    box_bytes(
                        f,
                        zeros(6) + be16_bytes(1) + zeros(16) + be16_bytes(w as u16) + be16_bytes(h as u16)
                            + be32_bytes(0x0048_0000) + be32_bytes(0x0048_0000) + zeros(4) + be16_bytes(1) + zeros(32)
                            + be16_bytes(0x0018) + be16_bytes(0xFFFF) + (if t.codec_id == CodecId::H264
                            && t.extra.len() > 0 {
                            box_bytes(seq![0x61u8, 0x76, 0x63, 0x43], t.extra)
                        } else {
                            Seq::empty()
                        }),
                    ),
                ),
            },
            _ => Err(ErrorKind::InvalidData),
        }
    } else if t.media_type == MediaType::Audio {
        match t.params {
            TrackParams::Audio(sr, ch) => match mp4_fourcc(t.codec_id) {
                None => Err(ErrorKind::Unsupported),
                Some(f) => Ok(
                    box_bytes(
                        f,
                        zeros(6) + be16_bytes(1) + zeros(8) + be16_bytes(ch as u16) + be16_bytes(16) + zeros(4)
                            + be32_bytes(sr << 16u32) + (if t.codec_id == CodecId::Aac {
                            esds_bytes(t.extra)
                        } else {
                            Seq::empty()
                        }),
                    ),
                ),
            },
            _ => Err(ErrorKind::InvalidData),
        }
    } else {
        Err(ErrorKind::Unsupported)
    }
}

/// The sample entry FourCC written for a codec reads back as that codec;
/// `hev1` reads as `hvc1` does (H.265), `avc3` as `avc1` does (H.264),
/// `mjpb` as `mjpa` (Motion JPEG); the video sample entries `avc1`, `avc3`,
/// `hvc1`, `hev1`, `vp08`, `vp09`, `av01`, `mp4v`, `mjpa` read as video
/// codecs, `vp08` and `vp09` as different ones, and the audio entries
/// `mp4a`, `Opus`, `fLaC`, `alac`, `ac-3`, `ec-3`, `.mp3` as audio codecs.
pub proof fn law_fourcc_round_trip(c: CodecId)
    ensures
        mp4_fourcc(c) matches Some(f) ==> fourcc_codec(be32(f[0], f[1], f[2], f[3])) == c,
        fourcc_codec(be32(0x68, 0x65, 0x76, 0x31)) == fourcc_codec(be32(0x68, 0x76, 0x63, 0x31)),
        fourcc_codec(be32(0x61, 0x76, 0x63, 0x33)) == fourcc_codec(be32(0x61, 0x76, 0x63, 0x31)),
        fourcc_codec(be32(0x6D, 0x6A, 0x70, 0x62)) == fourcc_codec(be32(0x6D, 0x6A, 0x70, 0x61)),
        fourcc_codec(be32(0x76, 0x70, 0x30, 0x38)) != fourcc_codec(be32(0x76, 0x70, 0x30, 0x39)),
        forall|v: int|
            v == 0x6176_6331 || v == 0x6176_6333 || v == 0x6876_6331 || v == 0x6865_7631 || v == 0x7670_3038 || v
                == 0x7670_3039 || v == 0x6176_3031 || v == 0x6D70_3476 || v == 0x6D6A_7061 ==> codec_media_type(
                #[trigger] fourcc_codec(v),
            ) == MediaType::Video,
        forall|v: int|
            v == 0x6D70_3461 || v == 0x4F70_7573 || v == 0x664C_6143 || v == 0x616C_6163 || v == 0x6163_2D33 || v
                == 0x6563_2D33 || v == 0x2E6D_7033 ==> codec_media_type(#[trigger] fourcc_codec(v)) == MediaType::Audio,
{
}

/// Whether a sample has a non-zero composition offset.
pub open spec fn has_cts(s: Seq<SampleEntry>) -> bool {
    exists|i: int| 0 <= i < s.len() && s[i].cts_offset != 0
}

/// The `stbl` box: description, times, chunks, sizes, offsets, keyframes
/// (video) and composition offsets (when any is non-zero).
pub open spec fn stbl_bytes(t: TrackView) -> Result<Seq<u8>, ErrorKind> {
    match sample_entry(t) {
        Err(k) => Err(k),
        Ok(e) => Ok(
            box_bytes(
                seq![0x73u8, 0x74, 0x62, 0x6C],
                box_bytes(seq![0x73u8, 0x74, 0x73, 0x64], zeros(4) + be32_bytes(1) + e) + stts_bytes(t.samples) + stsc_bytes() + stsz_bytes(
                    t.samples,
                ) + stco_bytes(t.samples) + (if t.media_type == MediaType::Video {
                    stss_bytes(t.samples)
                } else {
                    Seq::empty()
                }) + (if has_cts(t.samples) {
                    ctts_bytes(t.samples)
                } else {
                    Seq::empty()
                }),
            ),
        ),
    }
}

/// The `trak` box of track `t` with ID `id`: `tkhd`, then `mdia` with
/// `mdhd`, `hdlr` and `minf` (media header, `dinf`, `stbl`).
pub open spec fn trak_bytes(t: TrackView, id: u32) -> Result<Seq<u8>, ErrorKind> {
    match stbl_bytes(t) {
        Err(k) => Err(k),
        Ok(stbl) => {
            let mh = if t.media_type == MediaType::Video {
                vmhd_bytes()
            } else if t.media_type == MediaType::Audio {
                smhd_bytes()
            } else {
                Seq::empty()
            };
            let minf = box_bytes(seq![0x6Du8, 0x69, 0x6E, 0x66], mh + dinf_bytes() + stbl);
            let mdia = box_bytes(seq![0x6Du8, 0x64, 0x69, 0x61], mdhd_bytes(t) + hdlr_bytes(t.media_type) + minf);
            Ok(box_bytes(seq![0x74u8, 0x72, 0x61, 0x6B], tkhd_bytes(t, id) + mdia))
        },
    }
}

/// The `trak` boxes of the tracks from `k`, IDs from `k + 1`; the first
/// error stops them.
pub open spec fn traks_bytes(ts: Seq<TrackView>, k: nat) -> Result<Seq<u8>, ErrorKind>
    decreases ts.len() - k,
{
    if k >= ts.len() {
        Ok(Seq::empty())
    } else {
        match trak_bytes(ts[k as int], (k + 1) as u32) {
            Err(e) => Err(e),
            Ok(b) => match traks_bytes(ts, k + 1) {
                Err(e) => Err(e),
                Ok(rest) => Ok(b + rest),
            },
        }
    }
}

/// The longest track duration.
pub open spec fn max_duration(ts: Seq<TrackView>) -> nat
    decreases ts.len(),
{
    if ts.len() == 0 {
        0
    } else {
        let m = max_duration(ts.drop_last());
        let d = duration_sum(ts.last().samples);
        if d > m { d } else { m }
    }
}

/// The `moov` box of the tracks.
pub open spec fn moov_bytes(ts: Seq<TrackView>) -> Result<Seq<u8>, ErrorKind> {
    match traks_bytes(ts, 0) {
        Err(e) => Err(e),
        Ok(t) => Ok(box_bytes(seq![0x6Du8, 0x6F, 0x6F, 0x76], mvhd_bytes(max_duration(ts), ts.len() as u32) + t)),
    }
}

/// A track as collected.
pub struct TrackCollector {
    pub stream_index: usize,
    pub media_type: MediaType,
    pub codec_id: CodecId,
    pub params: TrackParams,
    pub extra: Vec<u8>,
    pub timescale: u32,
    pub samples: Vec<SampleEntry>,
    pub last_dts: i64,
}

impl View for TrackCollector {
    type V = TrackView;

    open spec fn view(&self) -> TrackView {
        TrackView {
            stream_index: self.stream_index,
            media_type: self.media_type,
            codec_id: self.codec_id,
            params: self.params,
            extra: self.extra@,
            timescale: self.timescale,
            samples: self.samples@,
            last_dts: self.last_dts,
        }
    }
}

/// The sum of the durations of a track's samples.
fn track_duration(samples: &Vec<SampleEntry>) -> (r: u64)
    requires
        samples@.len() < u32::MAX,
    ensures
        r == duration_sum(samples@),
{
    let mut sum: u64 = 0;
    let mut i: usize = 0;
    while i < samples.len()
        invariant
            i <= samples@.len(),
            samples@.len() < u32::MAX,
            sum == duration_sum(samples@.subrange(0, i as int)),
            sum <= i * 0xFFFF_FFFF,
        decreases samples.len() - i,
    {
        assert(samples@.subrange(0, i + 1).drop_last() =~= samples@.subrange(0, i as int));
        assert(sum + 0xFFFF_FFFF <= (i + 1) * 0xFFFF_FFFF) by (nonlinear_arith)
            requires sum <= i * 0xFFFF_FFFF;
        assert((i + 1) * 0xFFFF_FFFF <= 0xFFFF_FFFF * 0xFFFF_FFFF) by (nonlinear_arith)
            requires i + 1 <= 0xFFFF_FFFF;
        sum = sum + samples[i].duration as u64;
        i = i + 1;
    }
    assert(samples@.subrange(0, samples@.len() as int) =~= samples@);
    sum
}

fn mvhd(dur: u64, n: u32) -> (r: Vec<u8>)
    requires
        n < u32::MAX,
    ensures
        r@ == mvhd_bytes(dur as nat, n),
{
    let mut c: Vec<u8> = Vec::new();
    push_zeros(&mut c, 12);
    push_be32(&mut c, 1000);
    push_be32(&mut c, if dur > u32::MAX as u64 { u32::MAX } else { dur as u32 });
    push_be32(&mut c, 0x0001_0000);
    push_be16(&mut c, 0x0100);
    push_zeros(&mut c, 10);
    push_unity_matrix(&mut c);
    push_zeros(&mut c, 24);
    push_be32(&mut c, n + 1);
    boxed(&[0x6D, 0x76, 0x68, 0x64], &c)
}

fn tkhd(t: &TrackCollector, id: u32) -> (r: Vec<u8>)
    requires
        t.samples@.len() < u32::MAX,
    ensures
        r@ == tkhd_bytes(t@, id),
{
    let (w, h) = match t.params {
        TrackParams::Video(w, h) => (w, h),
        _ => (0, 0),
    };
    let mut c: Vec<u8> = Vec::new();
    push_tag(&mut c, &[0, 0, 0, 3]);
    push_zeros(&mut c, 8);
    push_be32(&mut c, id);
    push_zeros(&mut c, 4);
    push_be32(&mut c, track_duration(&t.samples) as u32);
    push_zeros(&mut c, 12);
    if t.media_type == MediaType::Audio {
        push_be16(&mut c, 0x0100);
    } else {
        push_zeros(&mut c, 2);
    }
    push_zeros(&mut c, 2);
    push_unity_matrix(&mut c);
    push_be32(&mut c, w << 16u32);
    push_be32(&mut c, h << 16u32);
    boxed(&[0x74, 0x6B, 0x68, 0x64], &c)
}

fn mdhd(t: &TrackCollector) -> (r: Vec<u8>)
    requires
        t.samples@.len() < u32::MAX,
    ensures
        r@ == mdhd_bytes(t@),
{
    let mut c: Vec<u8> = Vec::new();
    push_zeros(&mut c, 12);
    push_be32(&mut c, t.timescale);
    push_be32(&mut c, track_duration(&t.samples) as u32);
    push_be16(&mut c, 0x55C4);
    push_zeros(&mut c, 2);
    boxed(&[0x6D, 0x64, 0x68, 0x64], &c)
}

fn hdlr(m: MediaType) -> (r: Vec<u8>)
    ensures
        r@ == hdlr_bytes(m),
{
    let mut c: Vec<u8> = Vec::new();
    push_zeros(&mut c, 8);
    match m {
        MediaType::Video => {
            push_tag(&mut c, &[0x76, 0x69, 0x64, 0x65]);
            push_zeros(&mut c, 12);
            push_all(&mut c, &[0x56, 0x69, 0x64, 0x65, 0x6F, 0x48, 0x61, 0x6E, 0x64, 0x6C, 0x65, 0x72, 0x00]);
        },
        MediaType::Audio => {
            push_tag(&mut c, &[0x73, 0x6F, 0x75, 0x6E]);
            push_zeros(&mut c, 12);
            push_all(&mut c, &[0x53, 0x6F, 0x75, 0x6E, 0x64, 0x48, 0x61, 0x6E, 0x64, 0x6C, 0x65, 0x72, 0x00]);
        },
        _ => {
            push_tag(&mut c, &[0x6D, 0x65, 0x74, 0x61]);
            push_zeros(&mut c, 12);
            push_all(&mut c, &[0x4D, 0x65, 0x74, 0x61, 0x48, 0x61, 0x6E, 0x64, 0x6C, 0x65, 0x72, 0x00]);
        },
    }
    boxed(&[0x68, 0x64, 0x6C, 0x72], &c)
}

fn vmhd() -> (r: Vec<u8>)
    ensures
        r@ == vmhd_bytes(),
{
    let mut c: Vec<u8> = Vec::new();
    push_tag(&mut c, &[0, 0, 0, 1]);
    push_zeros(&mut c, 8);
    boxed(&[0x76, 0x6D, 0x68, 0x64], &c)
}

fn smhd() -> (r: Vec<u8>)
    ensures
        r@ == smhd_bytes(),
{
    let mut c: Vec<u8> = Vec::new();
    push_zeros(&mut c, 8);
    boxed(&[0x73, 0x6D, 0x68, 0x64], &c)
}

fn dinf() -> (r: Vec<u8>)
    ensures
        r@ == dinf_bytes(),
{
    let mut u: Vec<u8> = Vec::new();
    push_tag(&mut u, &[0, 0, 0, 1]);
    let url = boxed(&[0x75, 0x72, 0x6C, 0x20], &u);
    let mut d: Vec<u8> = Vec::new();
    push_zeros(&mut d, 4);
    push_be32(&mut d, 1);
    push_all(&mut d, url.as_slice());
    let dref = boxed(&[0x64, 0x72, 0x65, 0x66], &d);
    boxed(&[0x64, 0x69, 0x6E, 0x66], &dref)
}

/// The sample entry FourCC of a codec (see `mp4_fourcc`).
pub fn codec_to_mp4_fourcc(c: CodecId) -> (r: Option<[u8; 4]>)
    ensures
        match mp4_fourcc(c) {
            Some(f) => r matches Some(a) && a@ == f,
            None => r is None,
        },
{
    let r: Option<[u8; 4]> = match c {
        CodecId::H264 => Some([0x61, 0x76, 0x63, 0x31]),
        CodecId::H265 => Some([0x68, 0x76, 0x63, 0x31]),
        CodecId::Aac => Some([0x6D, 0x70, 0x34, 0x61]),
        CodecId::Mp3 => Some([0x2E, 0x6D, 0x70, 0x33]),
        CodecId::Opus => Some([0x4F, 0x70, 0x75, 0x73]),
        CodecId::Flac => Some([0x66, 0x4C, 0x61, 0x43]),
        CodecId::Vp9 => Some([0x76, 0x70, 0x30, 0x39]),
        CodecId::Av1 => Some([0x61, 0x76, 0x30, 0x31]),
        _ => None,
    };
    proof {
        match r {
            Some(a) => {
                assert(a@ =~= mp4_fourcc(c)->0);
            },
            None => {},
        }
    }
    r
}

/// Appends a descriptor length (see `desc_len`).
fn write_desc_length(buf: &mut Vec<u8>, len: usize)
    ensures
        final(buf)@ == old(buf)@ + desc_len(len as nat),
{
    if len < 0x80 {
        buf.push(len as u8);
    } else if len < 0x4000 {
        buf.push((0x80 + len / 0x80) as u8);
        buf.push((len % 0x80) as u8);
    } else if len < 0x20_0000 {
        buf.push((0x80 + len / 0x4000) as u8);
        buf.push((0x80 + (len / 0x80) % 0x80) as u8);
        buf.push((len % 0x80) as u8);
    } else {
        buf.push(((len / 0x20_0000) % 256) as u8 | 0x80u8);
        buf.push((0x80 + (len / 0x4000) % 0x80) as u8);
        buf.push((0x80 + (len / 0x80) % 0x80) as u8);
        buf.push((len % 0x80) as u8);
    }
    assert(buf@ =~= old(buf)@ + desc_len(len as nat));
}

fn esds(extra: &Vec<u8>) -> (r: Vec<u8>)
    ensures
        r@ == esds_bytes(extra@),
{
    let mut dc: Vec<u8> = Vec::new();
    push_all(&mut dc, &[0x40, 0x15, 0, 0, 0, 0x00, 0x01, 0xF4, 0x00, 0x00, 0x01, 0xF4, 0x00]);
    if extra.len() > 0 {
        dc.push(0x05);
        write_desc_length(&mut dc, extra.len());
        push_all(&mut dc, extra.as_slice());
    }
    assert(dc@ =~= dec_config_bytes(extra@));
    let mut es: Vec<u8> = Vec::new();
    push_tag(&mut es, &[0, 1, 0, 0x04]);
    write_desc_length(&mut es, dc.len());
    push_all(&mut es, dc.as_slice());
    es.push(0x06);
    write_desc_length(&mut es, 1);
    es.push(0x02);
    assert(es@ =~= es_desc_bytes(extra@));
    let mut c: Vec<u8> = Vec::new();
    push_zeros(&mut c, 4);
    c.push(0x03);
    write_desc_length(&mut c, es.len());
    push_all(&mut c, es.as_slice());
    assert(c@ =~= zeros(4) + seq![0x03u8] + desc_len(es@.len()) + es@);
    boxed(&[0x65, 0x73, 0x64, 0x73], &c)
}

fn build_sample_entry(t: &TrackCollector) -> (r: Result<Vec<u8>, ErrorKind>)
    ensures
        match sample_entry(t@) {
            Ok(b) => r matches Ok(v) && v@ == b,
            Err(k) => r == Err::<Vec<u8>, ErrorKind>(k),
        },
{
    if t.media_type == MediaType::Video {
        let (w, h) = match t.params {
            TrackParams::Video(w, h) => (w, h),
            _ => {
                return Err(ErrorKind::InvalidData);
            },
        };
        let f = match codec_to_mp4_fourcc(t.codec_id) {
            Some(f) => f,
            None => {
                return Err(ErrorKind::Unsupported);
            },
        };
        let mut c: Vec<u8> = Vec::new();
        push_zeros(&mut c, 6);
        push_be16(&mut c, 1);
        push_zeros(&mut c, 16);
        push_be16(&mut c, w as u16);
        push_be16(&mut c, h as u16);
        push_be32(&mut c, 0x0048_0000);
        push_be32(&mut c, 0x0048_0000);
        push_zeros(&mut c, 4);
        push_be16(&mut c, 1);
        push_zeros(&mut c, 32);
        push_be16(&mut c, 0x0018);
        push_be16(&mut c, 0xFFFF);
        if t.codec_id == CodecId::H264 && t.extra.len() > 0 {
            let avcc = boxed(&[0x61, 0x76, 0x63, 0x43], &t.extra);
            push_all(&mut c, avcc.as_slice());
        }
        Ok(boxed(&f, &c))
    } else if t.media_type == MediaType::Audio {
        let (sr, ch) = match t.params {
            TrackParams::Audio(sr, ch) => (sr, ch),
            _ => {
                return Err(ErrorKind::InvalidData);
            },
        };
        let f = match codec_to_mp4_fourcc(t.codec_id) {
            Some(f) => f,
            None => {
                return Err(ErrorKind::Unsupported);
            },
        };
        let mut c: Vec<u8> = Vec::new();
        push_zeros(&mut c, 6);
        push_be16(&mut c, 1);
        push_zeros(&mut c, 8);
        push_be16(&mut c, ch as u16);
        push_be16(&mut c, 16);
        push_zeros(&mut c, 4);
        push_be32(&mut c, sr << 16u32);
        if t.codec_id == CodecId::Aac {
            let e = esds(&t.extra);
            push_all(&mut c, e.as_slice());
        }
        Ok(boxed(&f, &c))
    } else {
        Err(ErrorKind::Unsupported)
    }
}

fn build_trak(t: &TrackCollector, id: u32) -> (r: Result<Vec<u8>, ErrorKind>)
    requires
        t.samples@.len() < u32::MAX,
    ensures
        match trak_bytes(t@, id) {
            Ok(b) => r matches Ok(v) && v@ == b,
            Err(k) => r == Err::<Vec<u8>, ErrorKind>(k),
        },
{
    let entry = build_sample_entry(t)?;
    let mut sd: Vec<u8> = Vec::new();
    push_zeros(&mut sd, 4);
    push_be32(&mut sd, 1);
    push_all(&mut sd, entry.as_slice());
    let mut st: Vec<u8> = Vec::new();
    let stsd = boxed(&[0x73, 0x74, 0x73, 0x64], &sd);
    push_all(&mut st, stsd.as_slice());
    let b = stts(&t.samples);
    push_all(&mut st, b.as_slice());
    let b = stsc();
    push_all(&mut st, b.as_slice());
    let b = stsz(&t.samples);
    push_all(&mut st, b.as_slice());
    let b = stco(&t.samples);
    push_all(&mut st, b.as_slice());
    if t.media_type == MediaType::Video {
        let b = stss(&t.samples);
        push_all(&mut st, b.as_slice());
    }
    let mut any_cts = false;
    let mut i: usize = 0;
    while i < t.samples.len()
        invariant
            i <= t.samples@.len(),
            any_cts == exists|k: int| 0 <= k < i && t.samples@[k].cts_offset != 0,
        decreases t.samples.len() - i,
    {
        if t.samples[i].cts_offset != 0 {
            any_cts = true;
        }
        i = i + 1;
    }
    if any_cts {
        let b = ctts(&t.samples);
        push_all(&mut st, b.as_slice());
    }
    let stbl = boxed(&[0x73, 0x74, 0x62, 0x6C], &st);
    let mut mi: Vec<u8> = Vec::new();
    if t.media_type == MediaType::Video {
        let b = vmhd();
        push_all(&mut mi, b.as_slice());
    } else if t.media_type == MediaType::Audio {
        let b = smhd();
        push_all(&mut mi, b.as_slice());
    }
    let b = dinf();
    push_all(&mut mi, b.as_slice());
    push_all(&mut mi, stbl.as_slice());
    let minf = boxed(&[0x6D, 0x69, 0x6E, 0x66], &mi);
    let mut md: Vec<u8> = Vec::new();
    let b = mdhd(t);
    push_all(&mut md, b.as_slice());
    let b = hdlr(t.media_type);
    push_all(&mut md, b.as_slice());
    push_all(&mut md, minf.as_slice());
    let mdia = boxed(&[0x6D, 0x64, 0x69, 0x61], &md);
    let mut tr: Vec<u8> = Vec::new();
    let b = tkhd(t, id);
    push_all(&mut tr, b.as_slice());
    push_all(&mut tr, mdia.as_slice());
    proof {
        let tv = t@;
        let mh = if tv.media_type == MediaType::Video {
            vmhd_bytes()
        } else if tv.media_type == MediaType::Audio {
            smhd_bytes()
        } else {
            Seq::empty()
        };
        assert(mi@ =~= mh + dinf_bytes() + stbl@);
    }
    Ok(boxed(&[0x74, 0x72, 0x61, 0x6B], &tr))
}

/// The `moov` box of the tracks (see `moov_bytes`).
#[verifier::spinoff_prover]
#[verifier::rlimit(40)]
fn build_moov(ts: &Vec<TrackCollector>) -> (r: Result<Vec<u8>, ErrorKind>)
    requires
        ts@.len() < u32::MAX,
        forall|k: int| 0 <= k < ts@.len() ==> (#[trigger] ts@[k]).samples@.len() < u32::MAX,
    ensures
        match moov_bytes(ts@.map_values(|t: TrackCollector| t@)) {
            Ok(b) => r matches Ok(v) && v@ == b,
            Err(k) => r == Err::<Vec<u8>, ErrorKind>(k),
        },
{
    let ghost tv = ts@.map_values(|t: TrackCollector| t@);
    let mut maxd: u64 = 0;
    let mut i: usize = 0;
    while i < ts.len()
        invariant
            i <= ts@.len(),
            tv == ts@.map_values(|t: TrackCollector| t@),
            forall|k: int| 0 <= k < ts@.len() ==> (#[trigger] ts@[k]).samples@.len() < u32::MAX,
            maxd == max_duration(tv.subrange(0, i as int)),
        decreases ts.len() - i,
    {
        assert(tv.subrange(0, i + 1).drop_last() =~= tv.subrange(0, i as int));
        let d = track_duration(&ts[i].samples);
        if d > maxd {
            maxd = d;
        }
        i = i + 1;
    }
    assert(tv.subrange(0, ts@.len() as int) =~= tv);
    let mut rest: Vec<u8> = Vec::new();
    let mut j: usize = 0;
    while j < ts.len()
        invariant
            j <= ts@.len(),
            ts@.len() < u32::MAX,
            tv == ts@.map_values(|t: TrackCollector| t@),
            forall|k: int| 0 <= k < ts@.len() ==> (#[trigger] ts@[k]).samples@.len() < u32::MAX,
            traks_bytes(tv, 0) == (match traks_bytes(tv, j as nat) {
                Err(e) => Err(e),
                Ok(r2) => Ok(rest@ + r2),
            }),
        decreases ts.len() - j,
    {
        match build_trak(&ts[j], (j + 1) as u32) {
            Ok(b) => {
                let ghost before = rest@;
                push_all(&mut rest, b.as_slice());
                proof {
                    match traks_bytes(tv, (j + 1) as nat) {
                        Err(e) => {},
                        Ok(r2) => {
                            assert(before + (b@ + r2) =~= rest@ + r2);
                        },
                    }
                }
            },
            Err(e) => {
                return Err(e);
            },
        }
        j = j + 1;
    }
    assert(rest@ + Seq::<u8>::empty() =~= rest@);
    let mv = mvhd(maxd, ts.len() as u32);
    let mut c: Vec<u8> = Vec::new();
    push_all(&mut c, mv.as_slice());
    push_all(&mut c, rest.as_slice());
    Ok(boxed(&[0x6D, 0x6F, 0x6F, 0x76], &c))
}

/// What a track keeps of a stream's parameters.
pub open spec fn params_of(p: StreamParams) -> TrackParams {
    match p {
        StreamParams::Video(v) => TrackParams::Video(v.width, v.height),
        StreamParams::Audio(a) => TrackParams::Audio(a.sample_rate, a.channel_layout.channels),
        _ => TrackParams::Other,
    }
}

/// A track's time scale: an audio stream's sample rate, else its time
/// base's denominator when positive, else 90000.
pub open spec fn timescale_of(s: Stream) -> u32 {
    match s.params {
        StreamParams::Audio(a) => a.sample_rate,
        _ => if s.time_base.den > 0 { s.time_base.den as u32 } else { 90000 },
    }
}

/// The track of a stream, before any sample.
pub open spec fn track_of(s: Stream) -> TrackView {
    TrackView {
        stream_index: s.index,
        media_type: s.media_type,
        codec_id: s.codec_id,
        params: params_of(s.params),
        extra: s.extra_data@,
        timescale: timescale_of(s),
        samples: Seq::empty(),
        last_dts: -1i64,
    }
}

/// The first track of stream `si`, from `k`.
pub open spec fn track_pos(ts: Seq<TrackView>, si: usize, k: nat) -> Option<nat>
    decreases ts.len() - k,
{
    if k >= ts.len() {
        None
    } else if ts[k as int].stream_index == si {
        Some(k)
    } else {
        track_pos(ts, si, k + 1)
    }
}

/// A sample's duration: the DTS step from the track's last packet (0 when
/// negative); for the first packet, its duration when positive, else 0.
pub open spec fn duration_of(last_dts: i64, p: Packet) -> u32 {
    if last_dts >= 0 {
        let d = p.dts - last_dts;
        (if d > 0 { d } else { 0 }) as u32
    } else if p.duration > 0 {
        p.duration as u32
    } else {
        0
    }
}

/// The sample a packet written at `off` makes.
pub open spec fn sample_of(t: TrackView, p: Packet, off: nat) -> SampleEntry {
    SampleEntry {
        offset: off as u64,
        size: p.payload().len() as u32,
        duration: duration_of(t.last_dts, p),
        cts_offset: (p.pts - p.dts) as i32,
        is_keyframe: p.is_keyframe,
    }
}

/// A track whose first sample has no duration takes the second's.
pub open spec fn fix_first(t: TrackView) -> TrackView {
    if t.samples.len() >= 2 && t.samples[0].duration == 0 {
        TrackView { samples: t.samples.update(0, SampleEntry { duration: t.samples[1].duration, ..t.samples[0] }), ..t }
    } else {
        t
    }
}

/// Largest `moov` the writer produces.
pub const MOOV_LIMIT: u64 = 0x10_0000_0000_0000;

/// The state of an MP4 writer.
pub struct Mp4View {
    pub tracks: Seq<TrackView>,
    pub mdat_offset: u64,
    pub mdat_data_start: u64,
    pub mdat_written: u64,
}

/// MP4 writer.
pub struct Mp4Muxer {
    tracks: Vec<TrackCollector>,
    mdat_offset: u64,
    mdat_data_start: u64,
    mdat_written: u64,
}

impl View for Mp4Muxer {
    type V = Mp4View;

    closed spec fn view(&self) -> Mp4View {
        Mp4View {
            tracks: self.tracks@.map_values(|t: TrackCollector| t@),
            mdat_offset: self.mdat_offset,
            mdat_data_start: self.mdat_data_start,
            mdat_written: self.mdat_written,
        }
    }
}

/// Fewer than 2^32 - 1 tracks, each with fewer than 2^32 - 1 samples.
pub open spec fn counts_fit(v: Mp4View) -> bool {
    &&& v.tracks.len() < u32::MAX
    &&& forall|k: int| 0 <= k < v.tracks.len() ==> (#[trigger] v.tracks[k]).samples.len() < u32::MAX
}

impl Mp4Muxer {
    /// A writer with no tracks.
    pub fn new() -> (r: Self)
        ensures
            r@ == (Mp4View { tracks: Seq::empty(), mdat_offset: 0, mdat_data_start: 0, mdat_written: 0 }),
    {
        let r = Mp4Muxer { tracks: Vec::new(), mdat_offset: 0, mdat_data_start: 0, mdat_written: 0 };
        assert(r@.tracks =~= Seq::<TrackView>::empty());
        r
    }

    /// A boxed writer, for a registry.
    pub fn create() -> (r: TaoResult<Box<dyn Muxer>>)
        ensures
            r matches Ok(m) && m.format_kind() == FormatId::Mp4,
    {
        Ok(Box::new(Mp4Muxer::new()))
    }

    /// What `write_header` does: no streams is `InvalidArgument` and
    /// nothing changes; else a track per stream is added, and `ftyp` and an
    /// `mdat` header with size 0 (set by the trailer) are written.
    pub open spec fn header_post(old_self: Mp4View, new_self: Mp4View, old_io: IoContext, new_io: IoContext, streams: Seq<Stream>, r: TaoResult<()>) -> bool {
        if streams.len() == 0 {
            r matches Err(e) && e.kind() == ErrorKind::InvalidArgument && new_io == old_io && new_self == old_self
        } else {
            let p = old_io.cursor();
            &&& r is Ok
            &&& new_io.contents() == written(old_io.contents(), p, ftyp_bytes() + be32_bytes(0) + seq![0x6Du8, 0x64, 0x61, 0x74])
            &&& new_io.cursor() == p + 36
            &&& new_self.tracks == old_self.tracks + streams.map_values(|s: Stream| track_of(s))
            &&& new_self.mdat_offset == p + 28
            &&& new_self.mdat_data_start == p + 36
            &&& new_self.mdat_written == old_self.mdat_written
        }
    }

    /// What `write_packet` does: a packet of a stream with no track is
    /// `InvalidArgument` and nothing changes; else its payload is written
    /// at the cursor and its sample added to its stream's first track.
    pub open spec fn packet_post(old_self: Mp4View, new_self: Mp4View, old_io: IoContext, new_io: IoContext, p: Packet, r: TaoResult<()>) -> bool {
        match track_pos(old_self.tracks, p.stream_index, 0) {
            None => r matches Err(e) && e.kind() == ErrorKind::InvalidArgument && new_io == old_io && new_self == old_self,
            Some(k) => {
                let t = old_self.tracks[k as int];
                &&& r is Ok
                &&& new_io.contents() == written(old_io.contents(), old_io.cursor(), p.payload())
                &&& new_io.cursor() == old_io.cursor() + p.payload().len()
                &&& new_self == (Mp4View {
                    tracks: old_self.tracks.update(
                        k as int,
                        TrackView { samples: t.samples.push(sample_of(t, p, old_io.cursor())), last_dts: p.dts, ..t },
                    ),
                    mdat_written: (old_self.mdat_written + p.payload().len()) as u64,
                    ..old_self
                })
            },
        }
    }

    /// What `write_trailer` does: writes the `mdat` size (8 plus the bytes
    /// written, kept to 32 bits) at its header, then, at the cursor, the
    /// `moov` of the tracks whose first sample duration was fixed; fails as
    /// building the `moov` fails (`InvalidData` past `MOOV_LIMIT` bytes). On
    /// success the tracks are gone.
    pub open spec fn trailer_post(old_self: Mp4View, new_self: Mp4View, old_io: IoContext, new_io: IoContext, r: TaoResult<()>) -> bool {
        let d1 = written(old_io.contents(), old_self.mdat_offset as nat, be32_bytes((8 + old_self.mdat_written) as u32));
        match moov_bytes(old_self.tracks.map_values(|t: TrackView| fix_first(t))) {
            Err(k) => r matches Err(e) && e.kind() == k,
            Ok(m) => if m.len() > MOOV_LIMIT {
                r matches Err(e) && e.kind() == ErrorKind::InvalidData
            } else {
                &&& r is Ok
                &&& new_io.contents() == written(d1, old_io.cursor(), m)
                &&& new_io.cursor() == old_io.cursor() + m.len()
                &&& new_self == (Mp4View { tracks: Seq::empty(), ..old_self })
            },
        }
    }
}

/// The track of a stream.
fn make_track(s: &Stream) -> (t: TrackCollector)
    ensures
        t@ == track_of(*s),
{
    let params = match &s.params {
        StreamParams::Video(v) => TrackParams::Video(v.width, v.height),
        StreamParams::Audio(a) => TrackParams::Audio(a.sample_rate, a.channel_layout.channels),
        _ => TrackParams::Other,
    };
    let timescale = match &s.params {
        StreamParams::Audio(a) => a.sample_rate,
        _ => if s.time_base.den > 0 { s.time_base.den as u32 } else { 90000 },
    };
    let t = TrackCollector {
        stream_index: s.index,
        media_type: s.media_type,
        codec_id: s.codec_id,
        params,
        extra: copy_bytes(s.extra_data.as_slice()),
        timescale,
        samples: Vec::new(),
        last_dts: -1,
    };
    assert(t@.samples =~= Seq::<SampleEntry>::empty());
    t
}

impl Mp4Muxer {
    /// Writes `ftyp` and the `mdat` header, and sets up a track per stream.
    pub fn write_mp4_header(&mut self, io: &mut IoContext, streams: &[Stream]) -> (r: TaoResult<()>)
        requires
            out_in_range(*old(io)),
        ensures
            Self::header_post(old(self)@, final(self)@, *old(io), *final(io), streams@, r),
    {
        if streams.len() == 0 {
            return Err(invalid_argument("MP4: at least one stream is needed"));
        }
        let ghost t0 = self@.tracks;
        let mut i: usize = 0;
        while i < streams.len()
            invariant
                i <= streams@.len(),
                self@.tracks == t0 + streams@.subrange(0, i as int).map_values(|s: Stream| track_of(s)),
                self.mdat_offset == old(self).mdat_offset,
                self.mdat_data_start == old(self).mdat_data_start,
                self.mdat_written == old(self).mdat_written,
            decreases streams.len() - i,
        {
            let t = make_track(&streams[i]);
            let ghost before = self.tracks@;
            let ghost tt = t@;
            proof {
                assert(streams@.subrange(0, i + 1) =~= streams@.subrange(0, i as int).push(streams@[i as int]));
                assert(streams@.subrange(0, i + 1).map_values(|s: Stream| track_of(s)) =~= streams@.subrange(
                    0,
                    i as int,
                ).map_values(|s: Stream| track_of(s)).push(track_of(streams@[i as int])));
            }
            self.tracks.push(t);
            assert(self.tracks@.map_values(|t: TrackCollector| t@) =~= before.map_values(|t: TrackCollector| t@).push(tt));
            i = i + 1;
        }
        assert(streams@.subrange(0, streams@.len() as int) =~= streams@);
        let f = ftyp();
        let mut hdr: Vec<u8> = Vec::new();
        push_all(&mut hdr, f.as_slice());
        push_be32(&mut hdr, 0);
        push_tag(&mut hdr, &[0x6D, 0x64, 0x61, 0x74]);
        let p = io.tell() as u64;
        io.write_all(hdr.as_slice())?;
        self.mdat_offset = p + 28;
        self.mdat_data_start = p + 36;
        Ok(())
    }

    /// The first track of stream `si` (see `track_pos`).
    fn find_track(&self, si: usize) -> (r: Option<usize>)
        ensures
            match track_pos(self@.tracks, si, 0) {
                Some(k) => r == Some(k as usize) && k < self@.tracks.len(),
                None => r is None,
            },
    {
        let mut i: usize = 0;
        while i < self.tracks.len()
            invariant
                i <= self.tracks@.len(),
                track_pos(self@.tracks, si, 0) == track_pos(self@.tracks, si, i as nat),
            decreases self.tracks.len() - i,
        {
            if self.tracks[i].stream_index == si {
                return Some(i);
            }
            i = i + 1;
        }
        None
    }

    /// Whether a packet can be written without overflowing the writer's
    /// counters: its track has room for a sample, its DTS step and its
    /// composition offset fit 64 bits, and the `mdat` count does not
    /// overflow.
    pub open spec fn packet_fits(v: Mp4View, p: Packet) -> bool {
        &&& counts_fit(v)
        &&& p.payload().len() <= 0x1_0000_0000_0000
        &&& (v.mdat_written + p.payload().len()) <= u64::MAX
        &&& i64::MIN <= p.pts - p.dts <= i64::MAX
        &&& match track_pos(v.tracks, p.stream_index, 0) {
            None => true,
            Some(k) => {
                &&& v.tracks[k as int].samples.len() + 1 < u32::MAX
                &&& (v.tracks[k as int].last_dts >= 0 ==> i64::MIN <= p.dts - v.tracks[k as int].last_dts <= i64::MAX)
            },
        }
    }

    /// Writes a packet's payload into the `mdat` and records its sample.
    pub fn write_mp4_packet(&mut self, io: &mut IoContext, packet: &Packet) -> (r: TaoResult<()>)
        requires
            out_in_range(*old(io)),
            Self::packet_fits(old(self)@, *packet),
        ensures
            Self::packet_post(old(self)@, final(self)@, *old(io), *final(io), *packet, r),
    {
        let k = match self.find_track(packet.stream_index) {
            Some(k) => k,
            None => {
                return Err(invalid_argument("MP4: unknown stream index"));
            },
        };
        let offset = io.tell() as u64;
        let data = bytes_as_slice(&packet.data);
        io.write_all(data)?;
        let dts = packet.dts;
        let last = self.tracks[k].last_dts;
        let duration: u32 = if last >= 0 {
            let d = dts - last;
            (if d > 0 { d } else { 0 }) as u32
        } else if packet.duration > 0 {
            packet.duration as u32
        } else {
            0
        };
        let sample = SampleEntry {
            offset,
            size: data.len() as u32,
            duration,
            cts_offset: (packet.pts - dts) as i32,
            is_keyframe: packet.is_keyframe,
        };
        let ghost tv = self@.tracks;
        let mut t = self.tracks.remove(k);
        t.samples.push(sample);
        t.last_dts = dts;
        self.tracks.insert(k, t);
        self.mdat_written = self.mdat_written + data.len() as u64;
        assert(self@.tracks =~= tv.update(
            k as int,
            TrackView { samples: tv[k as int].samples.push(sample_of(tv[k as int], *packet, old(io).cursor())), last_dts: dts, ..tv[k as int] },
        ));
        Ok(())
    }

    /// Whether the trailer can be written: the counts fit, the `mdat` size
    /// does not overflow, and its header is within reach.
    pub open spec fn trailer_fits(v: Mp4View) -> bool {
        &&& counts_fit(v)
        &&& v.mdat_written <= u64::MAX - 8
        &&& v.mdat_offset <= 0x1_0000_0000_0000
    }

    /// Sets the `mdat` size and writes the `moov`.
    pub fn write_mp4_trailer(&mut self, io: &mut IoContext) -> (r: TaoResult<()>)
        requires
            out_in_range(*old(io)),
            Self::trailer_fits(old(self)@),
        ensures
            Self::trailer_post(old(self)@, final(self)@, *old(io), *final(io), r),
    {
        let total = 8 + self.mdat_written;
        let current = io.tell() as u64;
        io.seek(SeekFrom::Start(self.mdat_offset))?;
        io.write_u32_be(total as u32)?;
        io.seek(SeekFrom::Start(current))?;
        let mut tracks: Vec<TrackCollector> = Vec::new();
        std::mem::swap(&mut tracks, &mut self.tracks);
        let ghost tv = tracks@.map_values(|t: TrackCollector| t@);
        let mut i: usize = 0;
        while i < tracks.len()
            invariant
                i <= tracks@.len(),
                tv.len() == tracks@.len(),
                tv.len() < u32::MAX,
                forall|k: int| 0 <= k < tv.len() ==> (#[trigger] tv[k]).samples.len() < u32::MAX,
                forall|k: int| 0 <= k < i ==> (#[trigger] tracks@[k])@ == fix_first(tv[k]),
                forall|k: int| i <= k < tracks@.len() ==> (#[trigger] tracks@[k])@ == tv[k],
            decreases tracks.len() - i,
        {
            let mut t = tracks.remove(i);
            if t.samples.len() >= 2 && t.samples[0].duration == 0 {
                let s0 = t.samples[0];
                let d1 = t.samples[1].duration;
                t.samples.set(0, SampleEntry { duration: d1, ..s0 });
            }
            tracks.insert(i, t);
            i = i + 1;
        }
        assert(tracks@.map_values(|t: TrackCollector| t@) =~= tv.map_values(|t: TrackView| fix_first(t)));
        let moov = match build_moov(&tracks) {
            Ok(m) => m,
            Err(k) => {
                return Err(error_of_kind(k, "MP4: cannot build the moov box"));
            },
        };
        if moov.len() as u64 > MOOV_LIMIT {
            return Err(invalid_data("MP4: moov box too large"));
        }
        io.write_all(moov.as_slice())?;
        assert(self@.tracks =~= Seq::<TrackView>::empty());
        Ok(())
    }
}

impl Muxer for Mp4Muxer {
    open spec fn header_admits(&self, streams: Seq<Stream>) -> bool {
        true
    }

    open spec fn packet_admits(&self, packet: Packet) -> bool {
        Self::packet_fits(self@, packet)
    }

    open spec fn trailer_admits(&self) -> bool {
        Self::trailer_fits(self@)
    }

    open spec fn format_kind(&self) -> FormatId {
        FormatId::Mp4
    }

    fn format_id(&self) -> (r: FormatId)
        ensures
            r == FormatId::Mp4,
    {
        FormatId::Mp4
    }

    fn name(&self) -> (r: &'static str)
        ensures
            r@ == "mp4"@,
    {
        "mp4"
    }

    fn write_header(&mut self, io: &mut IoContext, streams: &[Stream]) -> (r: TaoResult<()>)
        ensures
            Self::header_post(old(self)@, final(self)@, *old(io), *final(io), streams@, r),
    {
        self.write_mp4_header(io, streams)
    }

    fn write_packet(&mut self, io: &mut IoContext, packet: &Packet) -> (r: TaoResult<()>)
        ensures
            Self::packet_post(old(self)@, final(self)@, *old(io), *final(io), *packet, r),
    {
        self.write_mp4_packet(io, packet)
    }

    fn write_trailer(&mut self, io: &mut IoContext) -> (r: TaoResult<()>)
        ensures
            Self::trailer_post(old(self)@, final(self)@, *old(io), *final(io), r),
    {
        self.write_mp4_trailer(io)
    }
}

} // verus!

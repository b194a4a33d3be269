//! Format probing: recognising a container from its first bytes and its
//! file name.

use vstd::prelude::*;
use crate::format_id::FormatId;
use crate::text::{
    after_last_dot, ascii_lower_seq, ends_with, eq_ignore_ascii_case, ends_with_lowered,
    extension_of, str_ends_with, str_eq, to_lowercase, unicode_lowercase,
};

verus! {

/// Probe confidence; higher is more certain.
pub type ProbeScore = u32;

/// Score of a match by file extension only.
pub const SCORE_EXTENSION: ProbeScore = 50;

/// Score of a MIME type match.
pub const SCORE_MIME: ProbeScore = 75;

/// Score of an exact magic-number match.
pub const SCORE_MAX: ProbeScore = 100;

/// Result of probing: the recognised format and the confidence.
#[derive(Debug, Clone, Copy, PartialEq, Eq, Structural)]
pub struct ProbeResult {
    /// Recognised format.
    pub format_id: FormatId,
    /// Confidence.
    pub score: ProbeScore,
}

/// A format recogniser.
pub trait FormatProbe {
    /// Scores `data` (the first bytes of a file) and the optional file name;
    /// `None` when the input is not of this format.
    fn probe(&self, data: &[u8], filename: Option<&str>) -> Option<ProbeScore>;

    /// The format this recogniser stands for.
    fn format_id(&self) -> FormatId;
}

/// The character sequences of a sequence of strings.
pub open spec fn str_views(s: Seq<&str>) -> Seq<Seq<char>> {
    Seq::new(s.len(), |i: int| s[i]@)
}

/// Whether the extension of `filename` equals `lit` up to ASCII case.
pub open spec fn ext_matches_ci(filename: Option<&str>, lit: Seq<char>) -> bool {
    match filename {
        Some(n) => ascii_lower_seq(after_last_dot(n@)) == ascii_lower_seq(lit),
        None => false,
    }
}

/// Whether the Unicode-lowercased extension of `filename` is one of `lits`.
pub open spec fn ext_lower_in(filename: Option<&str>, lits: Seq<Seq<char>>) -> bool {
    match filename {
        Some(n) => lits.contains(unicode_lowercase(after_last_dot(n@))),
        None => false,
    }
}

/// Whether the extension of `filename` equals `lit` up to ASCII case.
pub fn filename_ext_is(filename: Option<&str>, lit: &str) -> (r: bool)
    ensures
        r == ext_matches_ci(filename, lit@),
{
    match filename {
        Some(n) => eq_ignore_ascii_case(extension_of(n), lit),
        None => false,
    }
}

/// Whether the Unicode-lowercased extension of `filename` is one of `lits`.
pub fn filename_lower_ext_in(filename: Option<&str>, lits: &[&str]) -> (r: bool)
    ensures
        r == ext_lower_in(filename, str_views(lits@)),
{
    match filename {
        Some(n) => {
            let lower = to_lowercase(extension_of(n));
            let ghost target = unicode_lowercase(after_last_dot(n@));
            let ghost views = str_views(lits@);
            let mut i: usize = 0;
            while i < lits.len()
                invariant
                    i <= lits@.len(),
                    lower@ == target,
                    filename == Some(n),
                    target == unicode_lowercase(after_last_dot(n@)),
                    views == str_views(lits@),
                    forall|k: int| 0 <= k < i ==> views[k] != target,
                decreases lits.len() - i,
            {
                if str_eq(lower.as_str(), lits[i]) {
                    assert(views[i as int] == target);
                    assert(views.contains(target));
                    return true;
                }
                i = i + 1;
            }
            assert(!views.contains(target));
            false
        },
        None => false,
    }
}

/// Whether the four bytes of `d` at `off` are `tag`.
pub open spec fn tag_at(d: Seq<u8>, off: int, tag: Seq<u8>) -> bool {
    0 <= off && off + 4 <= d.len() && d.subrange(off, off + 4) == tag
}

/// Whether the four bytes of `data` at `off` are `tag`.
pub fn has_tag(data: &[u8], off: usize, tag: &[u8; 4]) -> (r: bool)
    ensures
        r == tag_at(data@, off as int, tag@),
{
    if off > data.len() || data.len() - off < 4 {
        return false;
    }
    let ok = data[off] == tag[0] && data[off + 1] == tag[1] && data[off + 2] == tag[2]
        && data[off + 3] == tag[3];
    if ok {
        assert(data@.subrange(off as int, off + 4) =~= tag@);
    } else {
        assert(!(data@.subrange(off as int, off + 4) =~= tag@) ==> data@.subrange(off as int, off + 4) != tag@);
    }
    ok
}

/// Whether two four-byte tags are equal.
pub fn tag_is(t: &[u8; 4], b: &[u8; 4]) -> (r: bool)
    ensures
        r == (t@ == b@),
{
    let r = t[0] == b[0] && t[1] == b[1] && t[2] == b[2] && t[3] == b[3];
    if r {
        assert(t@ =~= b@);
    }
    r
}

/// Whether `pat` occurs in `d` at `i`.
pub open spec fn occurs_at(d: Seq<u8>, pat: Seq<u8>, i: int) -> bool {
    0 <= i && i + pat.len() <= d.len() && d.subrange(i, i + pat.len()) == pat
}

/// Whether `pat` occurs somewhere in `d`.
pub open spec fn occurs(d: Seq<u8>, pat: Seq<u8>) -> bool {
    exists|i: int| #[trigger] occurs_at(d, pat, i)
}

/// Whether `pat` occurs in `data` at `i`.
fn match_at(data: &[u8], pat: &[u8], i: usize) -> (r: bool)
    requires
        i + pat@.len() <= data@.len(),
    ensures
        r == occurs_at(data@, pat@, i as int),
{
    let mut k: usize = 0;
    while k < pat.len()
        invariant
            k <= pat@.len(),
            i + pat@.len() <= data.len(),
            forall|j: int| 0 <= j < k ==> data@[i + j] == pat@[j],
        decreases pat.len() - k,
    {
        if data[i + k] != pat[k] {
            assert(data@.subrange(i as int, i + pat@.len())[k as int] != pat@[k as int]);
            return false;
        }
        k = k + 1;
    }
    assert(data@.subrange(i as int, i + pat@.len()) =~= pat@);
    true
}

/// Whether the byte string `pat` occurs in `data`.
pub fn contains_bytes(data: &[u8], pat: &[u8]) -> (r: bool)
    ensures
        r == occurs(data@, pat@),
{
    if pat.len() > data.len() {
        assert(forall|i: int| !occurs_at(data@, pat@, i));
        return false;
    }
    let last = data.len() - pat.len();
    let mut i: usize = 0;
    loop
        invariant
            i <= last,
            last == data@.len() - pat@.len(),
            forall|j: int| 0 <= j < i ==> !#[trigger] occurs_at(data@, pat@, j),
        decreases last - i,
    {
        if match_at(data, pat, i) {
            return true;
        }
        if i == last {
            assert(forall|j: int| !#[trigger] occurs_at(data@, pat@, j));
            return false;
        }
        i = i + 1;
    }
}

/// Whether `filename`, ASCII-lowercased, ends with one of `suffixes`.
pub open spec fn name_ascii_ends_in(filename: Option<&str>, suffixes: Seq<Seq<char>>) -> bool {
    match filename {
        Some(n) => exists|i: int| 0 <= i < suffixes.len() && ends_with(ascii_lower_seq(n@), #[trigger] suffixes[i]),
        None => false,
    }
}

/// Whether `filename`, ASCII-lowercased, ends with one of `suffixes`.
pub fn filename_ascii_ends_in(filename: Option<&str>, suffixes: &[&str]) -> (r: bool)
    ensures
        r == name_ascii_ends_in(filename, str_views(suffixes@)),
{
    match filename {
        Some(n) => {
            let ghost views = str_views(suffixes@);
            let mut i: usize = 0;
            while i < suffixes.len()
                invariant
                    i <= suffixes@.len(),
                    filename == Some(n),
                    views == str_views(suffixes@),
                    forall|k: int| 0 <= k < i ==> !ends_with(ascii_lower_seq(n@), #[trigger] views[k]),
                decreases suffixes.len() - i,
            {
                if ends_with_lowered(n, suffixes[i]) {
                    assert(ends_with(ascii_lower_seq(n@), views[i as int]));
                    return true;
                }
                i = i + 1;
            }
            false
        },
        None => false,
    }
}

/// Whether `filename`, Unicode-lowercased, ends with `suffix`.
pub open spec fn name_lower_ends_with(filename: Option<&str>, suffix: Seq<char>) -> bool {
    match filename {
        Some(n) => ends_with(unicode_lowercase(n@), suffix),
        None => false,
    }
}

/// Whether `filename`, Unicode-lowercased, ends with `suffix`.
pub fn filename_lower_ends_with(filename: Option<&str>, suffix: &str) -> (r: bool)
    ensures
        r == name_lower_ends_with(filename, suffix@),
{
    match filename {
        Some(n) => {
            let lower = to_lowercase(n);
            str_ends_with(lower.as_str(), suffix)
        },
        None => false,
    }
}

/// ID3v2 tag size from its four syncsafe bytes (7 bits each).
pub open spec fn syncsafe_size(b6: u8, b7: u8, b8: u8, b9: u8) -> nat {
    ((b6 % 128) as nat) * 2097152 + ((b7 % 128) as nat) * 16384 + ((b8 % 128) as nat) * 128 + (b9
        % 128) as nat
}

/// ID3v2 tag size from four syncsafe bytes, masking each to 7 bits.
pub fn syncsafe_len(b6: u8, b7: u8, b8: u8, b9: u8) -> (r: usize)
    ensures
        r == syncsafe_size(b6, b7, b8, b9),
        r < 0x1000_0000,
{
    let v: u32 = ((b6 & 0x7F) as u32) << 21u32 | ((b7 & 0x7F) as u32) << 14u32 | ((b8 & 0x7F)
        as u32) << 7u32 | ((b9 & 0x7F) as u32);
    assert(((b6 & 0x7F) as u32) << 21u32 | ((b7 & 0x7F) as u32) << 14u32 | ((b8 & 0x7F) as u32)
        << 7u32 | ((b9 & 0x7F) as u32) == (b6 % 128) * 2097152 + (b7 % 128) * 16384 + (b8 % 128)
        * 128 + (b9 % 128)) by (bit_vector);
    v as usize
}

/// The best of the answers of a sequence of recognisers: the first one
/// with the highest score; `None` when none recognised the input.
pub open spec fn best_answer(c: Seq<(FormatId, Option<ProbeScore>)>) -> Option<ProbeResult>
    decreases c.len(),
{
    if c.len() == 0 {
        None
    } else {
        let prev = best_answer(c.drop_last());
        match c.last().1 {
            Some(score) => match prev {
                Some(b) => if score > b.score {
                    Some(ProbeResult { format_id: c.last().0, score })
                } else {
                    prev
                },
                None => Some(ProbeResult { format_id: c.last().0, score }),
            },
            None => prev,
        }
    }
}

/// Picks the best answer (see `best_answer`).
pub fn best_probe(candidates: &[(FormatId, Option<ProbeScore>)]) -> (r: Option<ProbeResult>)
    ensures
        r == best_answer(candidates@),
{
    let mut best: Option<ProbeResult> = None;
    let mut i: usize = 0;
    while i < candidates.len()
        invariant
            i <= candidates.len(),
            best == best_answer(candidates@.subrange(0, i as int)),
        decreases candidates.len() - i,
    {
        let (fid, answer) = candidates[i];
        assert(candidates@.subrange(0, i + 1).drop_last() =~= candidates@.subrange(0, i as int));
        match answer {
            Some(score) => {
                let better = match best {
                    Some(b) => score > b.score,
                    None => true,
                };
                if better {
                    best = Some(ProbeResult { format_id: fid, score });
                }
            },
            None => {},
        }
        i = i + 1;
    }
    assert(candidates@.subrange(0, candidates@.len() as int) =~= candidates@);
    best
}

/// How many bytes to read for probing: the input size (8192 when it is not
/// known), at most 8192 and at least 12.
pub fn probe_window(size: Option<u64>) -> (r: usize)
    ensures
        r == (match size {
            Some(n) => if n < 12 { 12 } else if n > 8192 { 8192 } else { n as int },
            None => 8192,
        }),
{
    let n: u64 = match size {
        Some(n) => if n < 8192 { n } else { 8192 },
        None => 8192,
    };
    if n < 12 { 12 } else { n as usize }
}

} // verus!

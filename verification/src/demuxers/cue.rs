//! CUE sheets: a text file that lists the tracks of an audio file with
//! `FILE`, `TRACK` and `INDEX` commands.

use vstd::prelude::*;
use crate::probe::{
    FormatProbe, ProbeScore, SCORE_EXTENSION, SCORE_MAX, SCORE_MIME, has_tag, tag_at, str_views,
    name_ascii_ends_in, filename_ascii_ends_in, name_lower_ends_with, filename_lower_ends_with,
    ext_lower_in, filename_lower_ext_in, ext_matches_ci, filename_ext_is,
};
use crate::format_id::FormatId;
use crate::text::{
    is_white_space, is_ws, trim, trim_seq, starts_with, str_starts_with,
};
use crate::error::{ErrorKind, TaoError, TaoResult, invalid_data};
use crate::text::{utf8_lossy, utf8_lossy_chars, utf8_decode, utf8_strict};
use crate::io::IoContext;
use vstd::string::StrSliceExecFns;
use crate::probe::{occurs, contains_bytes};

verus! {

/// What the CUE probe answers: the `.cue` extension first, then the words
/// `FILE` and `TRACK` in the text. (ASCII bytes survive a lossy UTF-8
/// decoding unchanged, so looking for them in the bytes is the same as in
/// the decoded text.)
pub open spec fn cue_probe_score(d: Seq<u8>, filename: Option<&str>) -> Option<ProbeScore> {
    if name_lower_ends_with(filename, ".cue"@) {
        Some(SCORE_EXTENSION)
    } else if d.len() >= 10 && occurs(d, seq![0x46u8, 0x49, 0x4C, 0x45]) && occurs(d, seq![0x54u8, 0x52, 0x41, 0x43, 0x4B]) {
        Some(SCORE_MAX)
    } else {
        None
    }
}

/// Recogniser of CUE sheets.
pub struct CueProbe;

impl FormatProbe for CueProbe {
    fn probe(&self, data: &[u8], filename: Option<&str>) -> (r: Option<ProbeScore>)
        ensures
            r == cue_probe_score(data@, filename),
    {
        if filename_lower_ends_with(filename, ".cue") {
            return Some(SCORE_EXTENSION);
        }
        if data.len() >= 10 {
            let file_word: [u8; 4] = [0x46u8, 0x49, 0x4C, 0x45];
            let track_word: [u8; 5] = [0x54u8, 0x52, 0x41, 0x43, 0x4B];
            assert(file_word@ =~= seq![0x46u8, 0x49, 0x4C, 0x45]);
            assert(track_word@ =~= seq![0x54u8, 0x52, 0x41, 0x43, 0x4B]);
            if contains_bytes(data, file_word.as_slice()) && contains_bytes(data, track_word.as_slice()) {
                return Some(SCORE_MAX);
            }
        }
        None
    }

    fn format_id(&self) -> (r: FormatId)
        ensures
            r == FormatId::Cue,
    {
        FormatId::Cue
    }
}

/// `s` trimmed, and without one pair of matching quotes (`"` or `'`)
/// around it.
pub open spec fn unquote_seq(s: Seq<char>) -> Seq<char> {
    let t = trim_seq(s);
    if t.len() >= 1 && ((t[0] == '"' && t.last() == '"') || (t[0] == '\'' && t.last() == '\'')) {
        t.subrange(1, t.len() - 1)
    } else {
        t
    }
}

/// Whether `unquote` accepts `s`: a lone quote character after trimming
/// would be sliced from 1 to 0.
pub open spec fn unquote_admits(s: Seq<char>) -> bool {
    let t = trim_seq(s);
    !(t.len() == 1 && (t[0] == '"' || t[0] == '\''))
}

/// Trims `s` and removes one pair of surrounding quotes.
pub fn unquote(s: &str) -> (r: String)
    requires
        unquote_admits(s@),
    ensures
        r@ == unquote_seq(s@),
{
    let trimmed = trim(s);
    let n = trimmed.unicode_len();
    if n >= 1 {
        let first = trimmed.get_char(0);
        let last = trimmed.get_char(n - 1);
        if (first == '"' && last == '"') || (first == '\'' && last == '\'') {
            return trimmed.substring_char(1, n - 1).to_owned();
        }
    }
    trimmed.to_owned()
}

/// What `parse_field` gives: the rest of `line` after `prefix`, unquoted.
pub open spec fn field_seq(line: Seq<char>, prefix: Seq<char>) -> Option<Seq<char>> {
    if starts_with(line, prefix) {
        Some(unquote_seq(trim_seq(line.subrange(prefix.len() as int, line.len() as int))))
    } else {
        None
    }
}

/// The value of a `PREFIX value` line, unquoted; `None` when the line does
/// not start with `prefix`.
pub fn parse_field(line: &str, prefix: &str) -> (r: Option<String>)
    requires
        starts_with(line@, prefix@) ==> unquote_admits(
            trim_seq(line@.subrange(prefix@.len() as int, line@.len() as int)),
        ),
    ensures
        match field_seq(line@, prefix@) {
            Some(v) => r matches Some(x) && x@ == v,
            None => r is None,
        },
{
    if str_starts_with(line, prefix) {
        let rest = line.substring_char(prefix.unicode_len(), line.unicode_len());
        return Some(unquote(trim(rest)));
    }
    None
}

/// Index of the first character at or after `i` that is not white space.
pub open spec fn skip_ws(s: Seq<char>, i: int) -> int
    decreases s.len() - i,
{
    if 0 <= i < s.len() && is_white_space(s[i]) {
        skip_ws(s, i + 1)
    } else {
        i
    }
}

/// Index of the first white space character at or after `i`.
pub open spec fn token_end(s: Seq<char>, i: int) -> int
    decreases s.len() - i,
{
    if 0 <= i < s.len() && !is_white_space(s[i]) {
        token_end(s, i + 1)
    } else {
        i
    }
}

/// Value of a string of decimal digits.
pub open spec fn decimal_value(d: Seq<char>) -> nat
    decreases d.len(),
{
    if d.len() == 0 {
        0
    } else {
        decimal_value(d.drop_last()) * 10 + (d.last() as nat - 48) as nat
    }
}

/// Whether every character of `d` is an ASCII digit.
pub open spec fn all_digits(d: Seq<char>) -> bool {
    forall|i: int| 0 <= i < d.len() ==> '0' <= #[trigger] d[i] && d[i] <= '9'
}

/// What `str::parse::<u32>` gives: an optional `+`, then one or more
/// decimal digits whose value fits in a `u32`.
pub open spec fn parse_u32_seq(t: Seq<char>) -> Option<u32> {
    let d = if t.len() > 0 && t[0] == '+' { t.drop_first() } else { t };
    if d.len() > 0 && all_digits(d) && decimal_value(d) <= u32::MAX {
        Some(decimal_value(d) as u32)
    } else {
        None
    }
}

/// Parses a decimal `u32`, with an optional leading `+`.
pub fn parse_u32(t: &str) -> (r: Option<u32>)
    ensures
        r == parse_u32_seq(t@),
{
    let n = t.unicode_len();
    let start: usize = if n > 0 && t.get_char(0) == '+' { 1 } else { 0 };
    let ghost d = if t@.len() > 0 && t@[0] == '+' { t@.drop_first() } else { t@ };
    if start >= n {
        return None;
    }
    let mut val: u64 = 0;
    let mut i: usize = start;
    while i < n
        invariant
            n == t@.len(),
            start <= i <= n,
            start == (if t@.len() > 0 && t@[0] == '+' { 1int } else { 0 }),
            d == t@.subrange(start as int, n as int),
            all_digits(t@.subrange(start as int, i as int)),
            val == (if decimal_value(t@.subrange(start as int, i as int)) > u32::MAX {
                u32::MAX + 1
            } else {
                decimal_value(t@.subrange(start as int, i as int)) as int
            }),
        decreases n - i,
    {
        let c = t.get_char(i);
        if !('0' <= c && c <= '9') {
            assert(d[i - start] == c);
            return None;
        }
        let digit = (c as u32 - 48) as u64;
        proof {
            let p = t@.subrange(start as int, i as int);
            let q = t@.subrange(start as int, i + 1);
            assert(q.drop_last() =~= p);
            assert(q.last() == c);
            assert forall|k: int| 0 <= k < q.len() implies '0' <= #[trigger] q[k] && q[k] <= '9' by {
                if k < p.len() {
                    assert(q[k] == p[k]);
                }
            }
        }
        val = if val > 0xFFFF_FFFF {
            0x1_0000_0000
        } else {
            let v = val * 10 + digit;
            if v > 0xFFFF_FFFF { 0x1_0000_0000 } else { v }
        };
        i = i + 1;
    }
    assert(t@.subrange(start as int, n as int) =~= d);
    if val > 0xFFFF_FFFF {
        None
    } else {
        Some(val as u32)
    }
}

/// Index after the first run of white space from `i`.
fn skip_white(s: &str, n: usize, i: usize) -> (r: usize)
    requires
        n == s@.len(),
        i <= n,
    ensures
        r == skip_ws(s@, i as int),
        i <= r <= n,
{
    let mut k = i;
    while k < n && is_ws(s.get_char(k))
        invariant
            n == s@.len(),
            i <= k <= n,
            skip_ws(s@, k as int) == skip_ws(s@, i as int),
        decreases n - k,
    {
        k = k + 1;
    }
    k
}

/// Index of the first white space at or after `i`.
fn find_token_end(s: &str, n: usize, i: usize) -> (r: usize)
    requires
        n == s@.len(),
        i <= n,
    ensures
        r == token_end(s@, i as int),
        i <= r <= n,
{
    let mut k = i;
    while k < n && !is_ws(s.get_char(k))
        invariant
            n == s@.len(),
            i <= k <= n,
            token_end(s@, k as int) == token_end(s@, i as int),
        decreases n - k,
    {
        k = k + 1;
    }
    k
}

/// What `parse_track_number` gives: the second white-space separated word
/// as a `u32`, when the first is `TRACK`.
pub open spec fn track_number_seq(line: Seq<char>) -> Option<u32> {
    let a = skip_ws(line, 0);
    let e0 = token_end(line, a);
    let b = skip_ws(line, e0);
    let e1 = token_end(line, b);
    if a < line.len() && b < line.len() && line.subrange(a, e0) == "TRACK"@ {
        parse_u32_seq(line.subrange(b, e1))
    } else {
        None
    }
}

/// The track number of a `TRACK nn TYPE` line.
pub fn parse_track_number(line: &str) -> (r: Option<u32>)
    ensures
        r == track_number_seq(line@),
{
    let n = line.unicode_len();
    let a = skip_white(line, n, 0);
    let e0 = find_token_end(line, n, a);
    let b = skip_white(line, n, e0);
    let e1 = find_token_end(line, n, b);
    if a < n && b < n {
        let first = line.substring_char(a, e0);
        let track = "TRACK";
        if crate::text::str_eq(first, track) {
            return parse_u32(line.substring_char(b, e1));
        }
    }
    None
}

/// Index of the first `c` at or after `i` (the length when there is none).
pub open spec fn find_char(s: Seq<char>, c: char, i: int) -> int
    decreases s.len() - i,
{
    if i < 0 || i >= s.len() {
        s.len() as int
    } else if s[i] == c {
        i
    } else {
        find_char(s, c, i + 1)
    }
}

/// Where `find_char` stops: at or after `i`, on a `c` or at the end, past
/// no other `c`.
pub proof fn lemma_find_char(s: Seq<char>, c: char, i: int)
    requires
        0 <= i <= s.len(),
    ensures
        i <= find_char(s, c, i) <= s.len(),
        find_char(s, c, i) < s.len() ==> s[find_char(s, c, i)] == c,
        forall|k: int| i <= k < find_char(s, c, i) ==> s[k] != c,
    decreases s.len() - i,
{
    if i < s.len() && s[i] != c {
        lemma_find_char(s, c, i + 1);
    }
}

/// Finds `c` in `s` from `i`.
fn find_char_from(s: &str, c: char, i: usize) -> (r: usize)
    requires
        i <= s@.len(),
    ensures
        r == find_char(s@, c, i as int),
        i <= r <= s@.len(),
{
    let n = s.unicode_len();
    let mut k = i;
    while k < n && s.get_char(k) != c
        invariant
            n == s@.len(),
            i <= k <= n,
            find_char(s@, c, k as int) == find_char(s@, c, i as int),
        decreases n - k,
    {
        k = k + 1;
    }
    k
}

/// The line that starts at `p`, as `str::lines` gives it: up to the next
/// `\n`, without a `\r` just before it.
pub open spec fn line_at(s: Seq<char>, p: int) -> Seq<char> {
    let k = find_char(s, '\n', p);
    if k < s.len() && k > p && s[k - 1] == '\r' {
        s.subrange(p, k - 1)
    } else {
        s.subrange(p, k)
    }
}

/// The path of a `FILE` line (already trimmed): the text between the
/// first two double quotes, or else the first word.
pub open spec fn file_path_seq(t: Seq<char>) -> Option<Seq<char>> {
    if !starts_with(t, "FILE"@) {
        None
    } else {
        let rest = trim_seq(t.subrange(4, t.len() as int));
        let q = find_char(rest, '"', 0);
        let q2 = find_char(rest, '"', q + 1);
        if q < rest.len() && q2 < rest.len() {
            Some(rest.subrange(q + 1, q2))
        } else {
            let a = skip_ws(rest, 0);
            if a < rest.len() {
                Some(rest.subrange(a, token_end(rest, a)))
            } else {
                None
            }
        }
    }
}

/// The path of a `FILE "path" TYPE` line.
pub fn parse_file_path(line: &str) -> (r: Option<String>)
    ensures
        match file_path_seq(trim_seq(line@)) {
            Some(v) => r matches Some(x) && x@ == v,
            None => r is None,
        },
{
    let t = trim(line);
    if !str_starts_with(t, "FILE") {
        proof {
            reveal_strlit("FILE");
        }
        return None;
    }
    proof {
        reveal_strlit("FILE");
    }
    let rest = trim(t.substring_char(4, t.unicode_len()));
    let n = rest.unicode_len();
    let q = find_char_from(rest, '"', 0);
    if q < n {
        let q2 = find_char_from(rest, '"', q + 1);
        if q2 < n {
            return Some(rest.substring_char(q + 1, q2).to_owned());
        }
    }
    let a = skip_white(rest, n, 0);
    if a < n {
        let e = find_token_end(rest, n, a);
        return Some(rest.substring_char(a, e).to_owned());
    }
    None
}

/// An `MM:SS:FF` time: exactly three `:`-separated numbers.
pub open spec fn msf_seq(t: Seq<char>) -> Option<(u32, u32, u32)> {
    let a = find_char(t, ':', 0);
    let b = find_char(t, ':', a + 1);
    if a < t.len() && b < t.len() && find_char(t, ':', b + 1) == t.len() {
        match (
            parse_u32_seq(t.subrange(0, a)),
            parse_u32_seq(t.subrange(a + 1, b)),
            parse_u32_seq(t.subrange(b + 1, t.len() as int)),
        ) {
            (Some(m), Some(sec), Some(f)) => Some((m, sec, f)),
            _ => None,
        }
    } else {
        None
    }
}

/// Parses an `MM:SS:FF` time (minutes, seconds and frames of 1/75 s).
pub fn parse_msf(t: &str) -> (r: Option<(u32, u32, u32)>)
    ensures
        r == msf_seq(t@),
{
    let n = t.unicode_len();
    let a = find_char_from(t, ':', 0);
    if a >= n {
        return None;
    }
    let b = find_char_from(t, ':', a + 1);
    if b >= n {
        return None;
    }
    let c = find_char_from(t, ':', b + 1);
    if c != n {
        return None;
    }
    let m = parse_u32(t.substring_char(0, a));
    let sec = parse_u32(t.substring_char(a + 1, b));
    let f = parse_u32(t.substring_char(b + 1, n));
    match (m, sec, f) {
        (Some(m), Some(sec), Some(f)) => Some((m, sec, f)),
        _ => None,
    }
}

/// The decimal digits of `n`, as `to_string` writes them.
pub open spec fn decimal_seq(n: nat) -> Seq<char>
    decreases n,
{
    if n < 10 {
        seq![(n + 48) as char]
    } else {
        decimal_seq(n / 10).push(((n % 10) + 48) as char)
    }
}

/// The digit character of `d` as a string.
fn digit_str(d: u32) -> (r: &'static str)
    requires
        d < 10,
    ensures
        r@ == seq![(d + 48) as char],
{
    proof {
        reveal_strlit("0");
        reveal_strlit("1");
        reveal_strlit("2");
        reveal_strlit("3");
        reveal_strlit("4");
        reveal_strlit("5");
        reveal_strlit("6");
        reveal_strlit("7");
        reveal_strlit("8");
        reveal_strlit("9");
    }
    match d {
        0 => "0",
        1 => "1",
        2 => "2",
        3 => "3",
        4 => "4",
        5 => "5",
        6 => "6",
        7 => "7",
        8 => "8",
        _ => "9",
    }
}

/// Writes `n` in decimal.
pub fn u32_to_decimal(n: u32) -> (r: String)
    ensures
        r@ == decimal_seq(n as nat),
    decreases n,
{
    if n < 10 {
        String::from_str(digit_str(n))
    } else {
        let mut s = u32_to_decimal(n / 10);
        s.append(digit_str(n % 10));
        s
    }
}

/// A track of a sheet, as its lines are read.
pub struct CueTrack {
    pub number: u32,
    pub title: Option<String>,
    pub performer: Option<String>,
    pub index: Option<(u32, u32, u32)>,
}

/// A chapter: where the track starts (`INDEX 01` as minutes, seconds and
/// frames) and its metadata.
pub struct CueChapter {
    pub start: Option<(u32, u32, u32)>,
    pub metadata: Vec<(String, String)>,
}

/// What a sheet holds: its global metadata, one chapter per track and the
/// audio file it refers to.
pub struct CueSheet {
    pub metadata: Vec<(String, String)>,
    pub chapters: Vec<CueChapter>,
    pub file: String,
}

/// Plain values of a track.
pub struct TrackV {
    pub number: u32,
    pub title: Option<Seq<char>>,
    pub performer: Option<Seq<char>>,
    pub index: Option<(u32, u32, u32)>,
}

/// Plain values of a chapter.
pub struct ChapterV {
    pub start: Option<(u32, u32, u32)>,
    pub metadata: Seq<(Seq<char>, Seq<char>)>,
}

/// The parser's state between lines.
pub struct CueStateV {
    pub metadata: Seq<(Seq<char>, Seq<char>)>,
    pub chapters: Seq<ChapterV>,
    pub track: Option<TrackV>,
    pub performer: Option<Seq<char>>,
    pub title: Option<Seq<char>>,
    pub file: Option<Seq<char>>,
}

pub open spec fn opt_str(o: Option<String>) -> Option<Seq<char>> {
    match o {
        Some(x) => Some(x@),
        None => None,
    }
}

pub open spec fn pairs_view(v: Seq<(String, String)>) -> Seq<(Seq<char>, Seq<char>)> {
    Seq::new(v.len(), |i: int| (v[i].0@, v[i].1@))
}

pub open spec fn track_view(t: CueTrack) -> TrackV {
    TrackV { number: t.number, title: opt_str(t.title), performer: opt_str(t.performer), index: t.index }
}

pub open spec fn chapter_view(c: CueChapter) -> ChapterV {
    ChapterV { start: c.start, metadata: pairs_view(c.metadata@) }
}

pub open spec fn chapters_view(v: Seq<CueChapter>) -> Seq<ChapterV> {
    Seq::new(v.len(), |i: int| chapter_view(v[i]))
}

/// The chapter of a finished track: its title, its performer (or the
/// sheet's), the sheet's title as album, and its number.
pub open spec fn chapter_of(t: TrackV, performer: Option<Seq<char>>, album: Option<Seq<char>>) -> ChapterV {
    let title_part: Seq<(Seq<char>, Seq<char>)> = match t.title {
        Some(x) => seq![("title"@, x)],
        None => seq![],
    };
    let artist_part: Seq<(Seq<char>, Seq<char>)> = match t.performer {
        Some(x) => seq![("artist"@, x)],
        None => match performer {
            Some(g) => seq![("artist"@, g)],
            None => seq![],
        },
    };
    let album_part: Seq<(Seq<char>, Seq<char>)> = match album {
        Some(a) => seq![("album"@, a)],
        None => seq![],
    };
    ChapterV {
        start: t.index,
        metadata: title_part + artist_part + album_part + seq![("track"@, decimal_seq(t.number as nat))],
    }
}

/// `t` with the value after `prefix` unquoted, if it starts with it.
pub open spec fn rest_admits(t: Seq<char>, prefix: Seq<char>) -> bool {
    starts_with(t, prefix) ==> unquote_admits(trim_seq(t.subrange(prefix.len() as int, t.len() as int)))
}

/// Whether a trimmed line can be read: a value that is a lone quote would
/// be sliced out of range.
pub open spec fn line_admits(t: Seq<char>) -> bool {
    &&& rest_admits(t, "REM GENRE"@)
    &&& rest_admits(t, "REM DATE"@)
    &&& rest_admits(t, "PERFORMER"@)
    &&& rest_admits(t, "TITLE"@)
    &&& rest_admits(t, "INDEX 01"@)
}

/// What a trimmed line does to the state.
pub open spec fn cue_step(st: CueStateV, t: Seq<char>) -> CueStateV {
    if t.len() == 0 || starts_with(t, "REM COMMENT"@) {
        st
    } else if field_seq(t, "REM GENRE"@) is Some {
        CueStateV { metadata: st.metadata.push(("genre"@, field_seq(t, "REM GENRE"@)->Some_0)), ..st }
    } else if field_seq(t, "REM DATE"@) is Some {
        CueStateV { metadata: st.metadata.push(("date"@, field_seq(t, "REM DATE"@)->Some_0)), ..st }
    } else if field_seq(t, "PERFORMER"@) is Some {
        let v = field_seq(t, "PERFORMER"@)->Some_0;
        match st.track {
            None => CueStateV { performer: Some(v), metadata: st.metadata.push(("artist"@, v)), ..st },
            Some(tr) => CueStateV { track: Some(TrackV { performer: Some(v), ..tr }), ..st },
        }
    } else if field_seq(t, "TITLE"@) is Some {
        let v = field_seq(t, "TITLE"@)->Some_0;
        match st.track {
            None => CueStateV { title: Some(v), metadata: st.metadata.push(("album"@, v)), ..st },
            Some(tr) => CueStateV { track: Some(TrackV { title: Some(v), ..tr }), ..st },
        }
    } else if starts_with(t, "FILE"@) {
        match file_path_seq(trim_seq(t)) {
            Some(f) => CueStateV { file: Some(f), ..st },
            None => st,
        }
    } else if starts_with(t, "TRACK"@) {
        let chapters = match st.track {
            Some(tr) => st.chapters.push(chapter_of(tr, st.performer, st.title)),
            None => st.chapters,
        };
        let track = match track_number_seq(t) {
            Some(n) => Some(TrackV { number: n, title: None, performer: None, index: None }),
            None => None,
        };
        CueStateV { chapters, track, ..st }
    } else if field_seq(t, "INDEX 01"@) is Some {
        match st.track {
            Some(tr) => CueStateV {
                track: Some(TrackV { index: msf_seq(field_seq(t, "INDEX 01"@)->Some_0), ..tr }),
                ..st
            },
            None => st,
        }
    } else {
        st
    }
}

/// The lines from `p` on, each trimmed and read in turn.
pub open spec fn cue_fold(s: Seq<char>, p: int, st: CueStateV) -> CueStateV
    decreases s.len() + 1 - p,
{
    if p < 0 || p >= s.len() {
        st
    } else {
        proof {
            lemma_find_char(s, '\n', p);
        }
        cue_fold(s, find_char(s, '\n', p) + 1, cue_step(st, trim_seq(line_at(s, p))))
    }
}

/// Whether every line from `p` on can be read.
pub open spec fn cue_admits(s: Seq<char>, p: int) -> bool
    decreases s.len() + 1 - p,
{
    if p < 0 || p >= s.len() {
        true
    } else {
        proof {
            lemma_find_char(s, '\n', p);
        }
        line_admits(trim_seq(line_at(s, p))) && cue_admits(s, find_char(s, '\n', p) + 1)
    }
}

/// The state before the first line.
pub open spec fn cue_start() -> CueStateV {
    CueStateV { metadata: seq![], chapters: seq![], track: None, performer: None, title: None, file: None }
}

/// What a sheet gives: its metadata, its chapters (the last track closed)
/// and its audio file; `InvalidData` without a `FILE` line.
pub open spec fn cue_sheet(s: Seq<char>) -> Result<(Seq<(Seq<char>, Seq<char>)>, Seq<ChapterV>, Seq<char>), ErrorKind> {
    let st = cue_fold(s, 0, cue_start());
    let chapters = match st.track {
        Some(tr) => st.chapters.push(chapter_of(tr, st.performer, st.title)),
        None => st.chapters,
    };
    match st.file {
        Some(f) => Ok((st.metadata, chapters, f)),
        None => Err(ErrorKind::InvalidData),
    }
}

struct CueBuilder {
    metadata: Vec<(String, String)>,
    chapters: Vec<CueChapter>,
    track: Option<CueTrack>,
    performer: Option<String>,
    title: Option<String>,
    file: Option<String>,
}

impl CueBuilder {
    spec fn view(&self) -> CueStateV {
        CueStateV {
            metadata: pairs_view(self.metadata@),
            chapters: chapters_view(self.chapters@),
            track: match self.track {
                Some(t) => Some(track_view(t)),
                None => None,
            },
            performer: opt_str(self.performer),
            title: opt_str(self.title),
            file: opt_str(self.file),
        }
    }
}

fn lit(s: &str) -> (r: String)
    ensures
        r@ == s@,
{
    String::from_str(s)
}

fn copy_opt(o: &Option<String>) -> (r: Option<String>)
    ensures
        opt_str(r) == opt_str(*o),
{
    match o {
        Some(x) => Some(String::from_str(x.as_str())),
        None => None,
    }
}

fn push_pair(v: &mut Vec<(String, String)>, k: String, x: String)
    ensures
        pairs_view(final(v)@) == pairs_view(old(v)@).push((k@, x@)),
{
    v.push((k, x));
    assert(pairs_view(v@) =~= pairs_view(old(v)@).push((k@, x@)));
}

/// The chapter of a finished track (see `chapter_of`).
fn make_chapter(t: CueTrack, performer: &Option<String>, album: &Option<String>) -> (r: CueChapter)
    ensures
        chapter_view(r) == chapter_of(track_view(t), opt_str(*performer), opt_str(*album)),
{
    let mut metadata: Vec<(String, String)> = Vec::new();
    let ghost m0 = pairs_view(metadata@);
    match t.title {
        Some(x) => push_pair(&mut metadata, lit("title"), x),
        None => {},
    }
    let ghost m1 = pairs_view(metadata@);
    match t.performer {
        Some(x) => push_pair(&mut metadata, lit("artist"), x),
        None => match performer {
            Some(g) => push_pair(&mut metadata, lit("artist"), String::from_str(g.as_str())),
            None => {},
        },
    }
    let ghost m2 = pairs_view(metadata@);
    match album {
        Some(a) => push_pair(&mut metadata, lit("album"), String::from_str(a.as_str())),
        None => {},
    }
    let ghost m3 = pairs_view(metadata@);
    push_pair(&mut metadata, lit("track"), u32_to_decimal(t.number));
    let ghost tv = track_view(t);
    proof {
        let c = chapter_of(tv, opt_str(*performer), opt_str(*album));
        let title_part: Seq<(Seq<char>, Seq<char>)> = match tv.title {
            Some(x) => seq![("title"@, x)],
            None => seq![],
        };
        let artist_part: Seq<(Seq<char>, Seq<char>)> = match tv.performer {
            Some(x) => seq![("artist"@, x)],
            None => match opt_str(*performer) {
                Some(g) => seq![("artist"@, g)],
                None => seq![],
            },
        };
        let album_part: Seq<(Seq<char>, Seq<char>)> = match opt_str(*album) {
            Some(a) => seq![("album"@, a)],
            None => seq![],
        };
        assert(m0 =~= seq![]);
        assert(m1 =~= m0 + title_part);
        assert(m2 =~= m1 + artist_part);
        assert(m3 =~= m2 + album_part);
        assert(pairs_view(metadata@) =~= title_part + artist_part + album_part + seq![("track"@, decimal_seq(tv.number as nat))]);
    }
    CueChapter { start: t.index, metadata }
}

/// Reads one trimmed line into the state (see `cue_step`).
fn cue_line(b: &mut CueBuilder, t: &str)
    requires
        line_admits(t@),
    ensures
        final(b).view() == cue_step(old(b).view(), t@),
{
    if t.unicode_len() == 0 || str_starts_with(t, "REM COMMENT") {
        return;
    }
    match parse_field(t, "REM GENRE") {
        Some(v) => {
            push_pair(&mut b.metadata, lit("genre"), v);
            return;
        },
        None => {},
    }
    match parse_field(t, "REM DATE") {
        Some(v) => {
            push_pair(&mut b.metadata, lit("date"), v);
            return;
        },
        None => {},
    }
    match parse_field(t, "PERFORMER") {
        Some(v) => {
            match b.track.take() {
                None => {
                    b.performer = Some(String::from_str(v.as_str()));
                    push_pair(&mut b.metadata, lit("artist"), v);
                },
                Some(mut tr) => {
                    tr.performer = Some(v);
                    b.track = Some(tr);
                },
            }
            return;
        },
        None => {},
    }
    match parse_field(t, "TITLE") {
        Some(v) => {
            match b.track.take() {
                None => {
                    b.title = Some(String::from_str(v.as_str()));
                    push_pair(&mut b.metadata, lit("album"), v);
                },
                Some(mut tr) => {
                    tr.title = Some(v);
                    b.track = Some(tr);
                },
            }
            return;
        },
        None => {},
    }
    if str_starts_with(t, "FILE") {
        match parse_file_path(t) {
            Some(f) => {
                b.file = Some(f);
            },
            None => {},
        }
        return;
    }
    if str_starts_with(t, "TRACK") {
        match b.track.take() {
            Some(tr) => {
                let ch = make_chapter(tr, &b.performer, &b.title);
                let ghost old_ch = b.chapters@;
                b.chapters.push(ch);
                assert(chapters_view(b.chapters@) =~= chapters_view(old_ch).push(chapter_view(ch)));
            },
            None => {},
        }
        match parse_track_number(t) {
            Some(n) => {
                b.track = Some(CueTrack { number: n, title: None, performer: None, index: None });
            },
            None => {},
        }
        return;
    }
    match parse_field(t, "INDEX 01") {
        Some(v) => {
            match b.track.take() {
                Some(mut tr) => {
                    tr.index = parse_msf(v.as_str());
                    b.track = Some(tr);
                },
                None => {},
            }
        },
        None => {},
    }
}

/// Parses the text of a CUE sheet.
pub fn parse_cue_text(text: &str) -> (r: TaoResult<CueSheet>)
    requires
        cue_admits(text@, 0),
        text@.len() < usize::MAX,
    ensures
        match cue_sheet(text@) {
            Ok((m, c, f)) => r matches Ok(sh) && pairs_view(sh.metadata@) == m && chapters_view(
                sh.chapters@,
            ) == c && sh.file@ == f,
            Err(k) => r matches Err(e) && e.kind() == k,
        },
{
    let mut b = CueBuilder {
        metadata: Vec::new(),
        chapters: Vec::new(),
        track: None,
        performer: None,
        title: None,
        file: None,
    };
    assert(pairs_view(b.metadata@) =~= seq![]);
    assert(chapters_view(b.chapters@) =~= seq![]);
    let n = text.unicode_len();
    let mut p: usize = 0;
    while p < n
        invariant
            n == text@.len(),
            n < usize::MAX,
            p <= n + 1,
            cue_admits(text@, p as int),
            cue_fold(text@, p as int, b.view()) == cue_fold(text@, 0, cue_start()),
        decreases n + 1 - p,
    {
        let k = find_char_from(text, '\n', p);
        proof {
            lemma_find_char(text@, '\n', p as int);
        }
        let e = if k < n && k > p && text.get_char(k - 1) == '\r' {
            k - 1
        } else {
            k
        };
        let line = text.substring_char(p, e);
        assert(line@ == line_at(text@, p as int));
        let t = trim(line);
        cue_line(&mut b, t);
        p = k + 1;
    }
    match b.track.take() {
        Some(tr) => {
            let ch = make_chapter(tr, &b.performer, &b.title);
            let ghost old_ch = b.chapters@;
            b.chapters.push(ch);
            assert(chapters_view(b.chapters@) =~= chapters_view(old_ch).push(chapter_view(ch)));
        },
        None => {},
    }
    match b.file {
        Some(f) => Ok(CueSheet { metadata: b.metadata, chapters: b.chapters, file: f }),
        None => Err(invalid_data("CUE: no FILE line")),
    }
}

/// Whether every line from `p` on can be read, computed.
fn rest_ok(t: &str, prefix: &str) -> (r: bool)
    ensures
        r == rest_admits(t@, prefix@),
{
    if !str_starts_with(t, prefix) {
        return true;
    }
    let rest = trim(t.substring_char(prefix.unicode_len(), t.unicode_len()));
    let u = trim(rest);
    let n = u.unicode_len();
    !(n == 1 && (u.get_char(0) == '"' || u.get_char(0) == '\''))
}

/// Whether the text can be read line by line (see `cue_admits`).
pub fn cue_text_admits(text: &str) -> (r: bool)
    requires
        text@.len() < usize::MAX,
    ensures
        r == cue_admits(text@, 0),
{
    let n = text.unicode_len();
    let mut p: usize = 0;
    while p < n
        invariant
            n == text@.len(),
            n < usize::MAX,
            p <= n + 1,
            cue_admits(text@, p as int) == cue_admits(text@, 0),
        decreases n + 1 - p,
    {
        let k = find_char_from(text, '\n', p);
        proof {
            lemma_find_char(text@, '\n', p as int);
        }
        let e = if k < n && k > p && text.get_char(k - 1) == '\r' {
            k - 1
        } else {
            k
        };
        let t = trim(text.substring_char(p, e));
        if !(rest_ok(t, "REM GENRE") && rest_ok(t, "REM DATE") && rest_ok(t, "PERFORMER") && rest_ok(
            t,
            "TITLE",
        ) && rest_ok(t, "INDEX 01")) {
            return false;
        }
        p = k + 1;
    }
    true
}

/// The text encodings a sheet may be written in besides UTF-8.
#[derive(Debug, Clone, Copy, PartialEq, Eq, Structural)]
pub enum TextEncoding {
    Utf16Le,
    Utf16Be,
    Gbk,
    Big5,
}

/// What `Encoding::decode_without_bom_handling` of encoding_rs gives for
/// the encoding and the bytes: the text, and whether malformed sequences
/// were replaced.
pub uninterp spec fn legacy_decoded(e: TextEncoding, b: Seq<u8>) -> (Seq<char>, bool);

/// Decodes `b` with encoding_rs's `decode_without_bom_handling` for `e`.
/// Its result is named `legacy_decoded` of the encoding and the bytes;
/// nothing more is stated of it. The crate documents a panic only when the
/// size of the output buffer overflows `usize`, which `requires` rules out.
#[verifier::external_body]
fn decode_legacy(e: TextEncoding, b: &[u8]) -> (r: (String, bool))
    requires
        b@.len() <= 0x1_0000_0000_0000,
    ensures
        (r.0@, r.1) == legacy_decoded(e, b@),
{
    let enc = match e {
        TextEncoding::Utf16Le => encoding_rs::UTF_16LE,
        TextEncoding::Utf16Be => encoding_rs::UTF_16BE,
        TextEncoding::Gbk => encoding_rs::GBK,
        TextEncoding::Big5 => encoding_rs::BIG5,
    };
    let (text, had_errors) = enc.decode_without_bom_handling(b);
    (text.into_owned(), had_errors)
}

/// The text of a sheet's bytes: after a UTF-8 BOM lossily, after a UTF-16
/// BOM in that encoding when it decodes cleanly, else the first of UTF-8,
/// GBK, Big5, UTF-16LE and UTF-16BE that decodes cleanly, else GBK with
/// replacements; `InvalidData` for no bytes.
pub open spec fn cue_decoded(d: Seq<u8>) -> Result<Seq<char>, ErrorKind> {
    let le = legacy_decoded(TextEncoding::Utf16Le, d.subrange(2, d.len() as int));
    let be = legacy_decoded(TextEncoding::Utf16Be, d.subrange(2, d.len() as int));
    if d.len() == 0 {
        Err(ErrorKind::InvalidData)
    } else if d.len() >= 3 && d[0] == 0xEF && d[1] == 0xBB && d[2] == 0xBF {
        Ok(utf8_lossy_chars(d.subrange(3, d.len() as int)))
    } else if d.len() >= 2 && d[0] == 0xFF && d[1] == 0xFE && !le.1 {
        Ok(le.0)
    } else if d.len() >= 2 && d[0] == 0xFE && d[1] == 0xFF && !be.1 {
        Ok(be.0)
    } else if utf8_strict(d) is Some {
        Ok(utf8_strict(d)->Some_0)
    } else if !legacy_decoded(TextEncoding::Gbk, d).1 {
        Ok(legacy_decoded(TextEncoding::Gbk, d).0)
    } else if !legacy_decoded(TextEncoding::Big5, d).1 {
        Ok(legacy_decoded(TextEncoding::Big5, d).0)
    } else if !legacy_decoded(TextEncoding::Utf16Le, d).1 {
        Ok(legacy_decoded(TextEncoding::Utf16Le, d).0)
    } else if !legacy_decoded(TextEncoding::Utf16Be, d).1 {
        Ok(legacy_decoded(TextEncoding::Utf16Be, d).0)
    } else {
        Ok(legacy_decoded(TextEncoding::Gbk, d).0)
    }
}

/// Decodes the bytes of a sheet (see `cue_decoded`).
pub fn decode_cue_text(data: &[u8]) -> (r: TaoResult<String>)
    requires
        data@.len() <= 0x1_0000_0000_0000,
    ensures
        match cue_decoded(data@) {
            Ok(t) => r matches Ok(s) && s@ == t,
            Err(k) => r matches Err(e) && e.kind() == k,
        },
{
    let n = data.len();
    if n == 0 {
        return Err(invalid_data("CUE: empty file"));
    }
    if n >= 3 && data[0] == 0xEF && data[1] == 0xBB && data[2] == 0xBF {
        return Ok(utf8_lossy(&data[3..n]));
    }
    if n >= 2 && data[0] == 0xFF && data[1] == 0xFE {
        let (t, bad) = decode_legacy(TextEncoding::Utf16Le, &data[2..n]);
        if !bad {
            return Ok(t);
        }
    }
    if n >= 2 && data[0] == 0xFE && data[1] == 0xFF {
        let (t, bad) = decode_legacy(TextEncoding::Utf16Be, &data[2..n]);
        if !bad {
            return Ok(t);
        }
    }
    match utf8_decode(data) {
        Some(t) => {
            return Ok(t);
        },
        None => {},
    }
    let (t, bad) = decode_legacy(TextEncoding::Gbk, data);
    if !bad {
        return Ok(t);
    }
    let (t, bad) = decode_legacy(TextEncoding::Big5, data);
    if !bad {
        return Ok(t);
    }
    let (t, bad) = decode_legacy(TextEncoding::Utf16Le, data);
    if !bad {
        return Ok(t);
    }
    let (t, bad) = decode_legacy(TextEncoding::Utf16Be, data);
    if !bad {
        return Ok(t);
    }
    let (t, _) = decode_legacy(TextEncoding::Gbk, data);
    Ok(t)
}

/// What reading a sheet from `io` gives: the whole input decoded and
/// parsed; `InvalidData` for an empty input or a line that cannot be read
/// (a value that is a lone quote).
pub open spec fn cue_read(io: IoContext) -> Result<(Seq<(Seq<char>, Seq<char>)>, Seq<ChapterV>, Seq<char>), ErrorKind> {
    let d = io.contents();
    if d.len() == 0 {
        Err(ErrorKind::InvalidData)
    } else if !io.can_read(d.len()) {
        Err(ErrorKind::Eof)
    } else {
        match cue_decoded(d) {
            Err(k) => Err(k),
            Ok(t) => if t.len() < usize::MAX && cue_admits(t, 0) {
                cue_sheet(t)
            } else {
                Err(ErrorKind::InvalidData)
            },
        }
    }
}

/// Reads the whole input at the cursor (as many bytes as the input holds),
/// decodes it and parses it as a sheet.
pub fn read_cue_sheet(io: &mut IoContext) -> (r: TaoResult<CueSheet>)
    requires
        old(io).contents().len() <= 0x1_0000_0000_0000,
    ensures
        final(io).contents() == old(io).contents(),
        match cue_read(*old(io)) {
            Ok((m, c, f)) => r matches Ok(sh) && pairs_view(sh.metadata@) == m && chapters_view(
                sh.chapters@,
            ) == c && sh.file@ == f,
            Err(k) => r matches Err(e) && e.kind() == k,
        },
{
    let size = io.data().len();
    if size == 0 {
        return Err(invalid_data("CUE: empty file"));
    }
    let bytes = io.read_bytes(size)?;
    let ghost d = old(io).contents();
    assert(bytes@ =~= d);
    let text = decode_cue_text(bytes.as_slice())?;
    let t = text.as_str();
    if t.unicode_len() == usize::MAX || !cue_text_admits(t) {
        return Err(invalid_data("CUE: a value is a lone quote"));
    }
    parse_cue_text(t)
}

} // verus!

//! Container format identifiers, their names and file extensions.

use vstd::prelude::*;
use crate::text::{extension_of, str_eq, to_lowercase, unicode_lowercase, after_last_dot, ascii_text, ascii_lower_seq};

verus! {

/// Container format identifier.
#[derive(Debug, Clone, Copy, PartialEq, Eq, Hash, Structural)]
#[non_exhaustive]
pub enum FormatId {
    /// MPEG-4 Part 14 (MP4).
    Mp4,
    /// Matroska (MKV).
    Matroska,
    /// WebM.
    Webm,
    /// Audio Video Interleave.
    Avi,
    /// Flash Video.
    Flv,
    /// MPEG transport stream.
    MpegTs,
    /// MPEG program stream.
    MpegPs,
    /// Material eXchange Format.
    Mxf,
    /// 3GPP.
    ThreeGp,
    /// Ogg.
    Ogg,
    /// ASF / WMV / WMA.
    Asf,
    /// WAV (RIFF WAVE).
    Wav,
    /// Native FLAC.
    FlacContainer,
    /// Raw MPEG audio.
    Mp3Container,
    /// AAC in ADTS framing.
    AacAdts,
    /// AIFF.
    Aiff,
    /// Image sequence.
    ImageSequence,
    /// Raw video.
    RawVideo,
    /// Raw PCM audio.
    RawAudio,
    /// MPEG-4 Part 2 elementary stream.
    Mpeg4Es,
    /// H.264 Annex B elementary stream.
    H264Es,
    /// CUE sheet.
    Cue,
}

/// Human readable name of each format.
pub open spec fn format_name(id: FormatId) -> Seq<char> {
    match id {
        FormatId::Mp4 => "mp4"@,
        FormatId::Matroska => "matroska"@,
        FormatId::Webm => "webm"@,
        FormatId::Avi => "avi"@,
        FormatId::Flv => "flv"@,
        FormatId::MpegTs => "mpegts"@,
        FormatId::MpegPs => "mpeg"@,
        FormatId::Mxf => "mxf"@,
        FormatId::ThreeGp => "3gp"@,
        FormatId::Ogg => "ogg"@,
        FormatId::Asf => "asf"@,
        FormatId::Wav => "wav"@,
        FormatId::FlacContainer => "flac"@,
        FormatId::Mp3Container => "mp3"@,
        FormatId::AacAdts => "aac"@,
        FormatId::Aiff => "aiff"@,
        FormatId::ImageSequence => "image2"@,
        FormatId::RawVideo => "rawvideo"@,
        FormatId::RawAudio => "rawaudio"@,
        FormatId::Mpeg4Es => "m4v"@,
        FormatId::H264Es => "h264"@,
        FormatId::Cue => "cue"@,
    }
}

/// The length and first four characters (a space past the end) of a
/// name.
spec fn name_key(s: Seq<char>) -> (u8, char, char, char, char) {
    (s.len() as u8, s[0], s[1], s[2], if s.len() > 3 { s[3] } else { ' ' })
}

/// The format whose name has the key `k`.
spec fn format_of_key(k: (u8, char, char, char, char)) -> FormatId {
    match k {
        (3, 'm', 'p', '4', ' ') => FormatId::Mp4,
        (8, 'm', 'a', 't', 'r') => FormatId::Matroska,
        (4, 'w', 'e', 'b', 'm') => FormatId::Webm,
        (3, 'a', 'v', 'i', ' ') => FormatId::Avi,
        (3, 'f', 'l', 'v', ' ') => FormatId::Flv,
        (6, 'm', 'p', 'e', 'g') => FormatId::MpegTs,
        (4, 'm', 'p', 'e', 'g') => FormatId::MpegPs,
        (3, 'm', 'x', 'f', ' ') => FormatId::Mxf,
        (3, '3', 'g', 'p', ' ') => FormatId::ThreeGp,
        (3, 'o', 'g', 'g', ' ') => FormatId::Ogg,
        (3, 'a', 's', 'f', ' ') => FormatId::Asf,
        (3, 'w', 'a', 'v', ' ') => FormatId::Wav,
        (4, 'f', 'l', 'a', 'c') => FormatId::FlacContainer,
        (3, 'm', 'p', '3', ' ') => FormatId::Mp3Container,
        (3, 'a', 'a', 'c', ' ') => FormatId::AacAdts,
        (4, 'a', 'i', 'f', 'f') => FormatId::Aiff,
        (6, 'i', 'm', 'a', 'g') => FormatId::ImageSequence,
        (8, 'r', 'a', 'w', 'v') => FormatId::RawVideo,
        (8, 'r', 'a', 'w', 'a') => FormatId::RawAudio,
        (3, 'm', '4', 'v', ' ') => FormatId::Mpeg4Es,
        (4, 'h', '2', '6', '4') => FormatId::H264Es,
        _ => FormatId::Cue,
    }
}

/// A format's name gives the format back.
proof fn lemma_name_key(id: FormatId)
    ensures
        format_of_key(name_key(format_name(id))) == id,
{
    match id {
        FormatId::Mp4 => {
            reveal_strlit("mp4");
        },
        FormatId::Matroska => {
            reveal_strlit("matroska");
        },
        FormatId::Webm => {
            reveal_strlit("webm");
        },
        FormatId::Avi => {
            reveal_strlit("avi");
        },
        FormatId::Flv => {
            reveal_strlit("flv");
        },
        FormatId::MpegTs => {
            reveal_strlit("mpegts");
        },
        FormatId::MpegPs => {
            reveal_strlit("mpeg");
        },
        FormatId::Mxf => {
            reveal_strlit("mxf");
        },
        FormatId::ThreeGp => {
            reveal_strlit("3gp");
        },
        FormatId::Ogg => {
            reveal_strlit("ogg");
        },
        FormatId::Asf => {
            reveal_strlit("asf");
        },
        FormatId::Wav => {
            reveal_strlit("wav");
        },
        FormatId::FlacContainer => {
            reveal_strlit("flac");
        },
        FormatId::Mp3Container => {
            reveal_strlit("mp3");
        },
        FormatId::AacAdts => {
            reveal_strlit("aac");
        },
        FormatId::Aiff => {
            reveal_strlit("aiff");
        },
        FormatId::ImageSequence => {
            reveal_strlit("image2");
        },
        FormatId::RawVideo => {
            reveal_strlit("rawvideo");
        },
        FormatId::RawAudio => {
            reveal_strlit("rawaudio");
        },
        FormatId::Mpeg4Es => {
            reveal_strlit("m4v");
        },
        FormatId::H264Es => {
            reveal_strlit("h264");
        },
        FormatId::Cue => {
            reveal_strlit("cue");
        },
    }
}

/// Different formats have different names.
pub proof fn law_format_names_distinct(a: FormatId, b: FormatId)
    requires
        a != b,
    ensures
        format_name(a) != format_name(b),
{
    lemma_name_key(a);
    lemma_name_key(b);
}

/// File extensions of each format.
pub open spec fn format_extensions(id: FormatId) -> Seq<Seq<char>> {
    match id {
        FormatId::Mp4 => seq!["mp4"@, "m4a"@, "m4v"@, "mov"@],
        FormatId::Matroska => seq!["mkv"@, "mka"@],
        FormatId::Webm => seq!["webm"@],
        FormatId::Avi => seq!["avi"@],
        FormatId::Flv => seq!["flv"@],
        FormatId::MpegTs => seq!["ts"@, "m2ts"@, "mts"@],
        FormatId::MpegPs => seq!["mpg"@, "mpeg"@, "vob"@],
        FormatId::Mxf => seq!["mxf"@],
        FormatId::ThreeGp => seq!["3gp"@, "3g2"@],
        FormatId::Ogg => seq!["ogg"@, "ogv"@, "oga"@, "ogx"@],
        FormatId::Asf => seq!["asf"@, "wmv"@, "wma"@],
        FormatId::Wav => seq!["wav"@],
        FormatId::FlacContainer => seq!["flac"@],
        FormatId::Mp3Container => seq!["mp3"@],
        FormatId::AacAdts => seq!["aac"@],
        FormatId::Aiff => seq!["aiff"@, "aif"@],
        FormatId::ImageSequence => seq!["png"@, "jpg"@, "jpeg"@, "bmp"@],
        FormatId::RawVideo => seq!["yuv"@, "rgb"@],
        FormatId::RawAudio => seq!["pcm"@, "raw"@],
        FormatId::Mpeg4Es => seq!["m4v"@],
        FormatId::H264Es => seq!["h264"@, "264"@],
        FormatId::Cue => seq!["cue"@],
    }
}

/// The formats searched by extension, in search order.
pub open spec fn all_formats() -> Seq<FormatId> {
    seq![
        FormatId::Mp4,
        FormatId::Matroska,
        FormatId::Webm,
        FormatId::Avi,
        FormatId::Flv,
        FormatId::MpegTs,
        FormatId::MpegPs,
        FormatId::Mxf,
        FormatId::ThreeGp,
        FormatId::Ogg,
        FormatId::Asf,
        FormatId::Wav,
        FormatId::FlacContainer,
        FormatId::Mp3Container,
        FormatId::AacAdts,
        FormatId::Aiff,
        FormatId::ImageSequence,
        FormatId::RawVideo,
        FormatId::RawAudio,
        FormatId::Mpeg4Es,
    ]
}

/// The first format of `ids` with extension `ext`.
pub open spec fn first_with_extension(ids: Seq<FormatId>, ext: Seq<char>) -> Option<FormatId>
    decreases ids.len(),
{
    if ids.len() == 0 {
        None
    } else if format_extensions(ids[0]).contains(ext) {
        Some(ids[0])
    } else {
        first_with_extension(ids.drop_first(), ext)
    }
}

/// The format a lowercase extension designates.
pub open spec fn format_for_extension(ext: Seq<char>) -> Option<FormatId> {
    first_with_extension(all_formats(), ext)
}

proof fn lemma_first_with_extension(ids: Seq<FormatId>, ext: Seq<char>, i: int)
    requires
        0 <= i <= ids.len(),
        forall|j: int| 0 <= j < i ==> !format_extensions(ids[j]).contains(ext),
    ensures
        i < ids.len() && format_extensions(ids[i]).contains(ext) ==> first_with_extension(ids, ext)
            == Some(ids[i]),
        i == ids.len() ==> first_with_extension(ids, ext) is None,
    decreases i,
{
    if i > 0 {
        assert forall|j: int| 0 <= j < i - 1 implies !format_extensions(
            ids.drop_first()[j],
        ).contains(ext) by {
            assert(ids.drop_first()[j] == ids[j + 1]);
        }
        lemma_first_with_extension(ids.drop_first(), ext, i - 1);
    }
}

proof fn lemma_listed_found(ids: Seq<FormatId>, ext: Seq<char>, i: int)
    requires
        0 <= i < ids.len(),
        format_extensions(ids[i]).contains(ext),
    ensures
        first_with_extension(ids, ext) matches Some(id) && format_extensions(id).contains(ext),
    decreases ids.len(),
{
    if !format_extensions(ids[0]).contains(ext) {
        lemma_listed_found(ids.drop_first(), ext, i - 1);
    }
}

/// Every extension a format lists is recognised, as a format that lists
/// it (the first in `all_formats` order that does).
pub proof fn law_listed_extension_found(i: int, ext: Seq<char>)
    requires
        0 <= i < all_formats().len(),
        format_extensions(all_formats()[i]).contains(ext),
    ensures
        format_for_extension(ext) matches Some(id) && format_extensions(id).contains(ext),
{
    lemma_listed_found(all_formats(), ext, i);
}


/// An extension designates the first format of the search order that
/// lists it: a format lists it and no format before it does.
pub proof fn law_extension_first_match(i: int, ext: Seq<char>)
    requires
        0 <= i < all_formats().len(),
        format_extensions(all_formats()[i]).contains(ext),
        forall|j: int| 0 <= j < i ==> !format_extensions(#[trigger] all_formats()[j]).contains(ext),
    ensures
        format_for_extension(ext) == Some(all_formats()[i]),
{
    lemma_first_with_extension(all_formats(), ext, i);
}

impl FormatId {
    /// The `i`-th format of the extension search order.
    fn nth_searched(i: usize) -> (r: FormatId)
        requires
            i < 20,
        ensures
            r == all_formats()[i as int],
    {
        match i {
            0 => FormatId::Mp4,
            1 => FormatId::Matroska,
            2 => FormatId::Webm,
            3 => FormatId::Avi,
            4 => FormatId::Flv,
            5 => FormatId::MpegTs,
            6 => FormatId::MpegPs,
            7 => FormatId::Mxf,
            8 => FormatId::ThreeGp,
            9 => FormatId::Ogg,
            10 => FormatId::Asf,
            11 => FormatId::Wav,
            12 => FormatId::FlacContainer,
            13 => FormatId::Mp3Container,
            14 => FormatId::AacAdts,
            15 => FormatId::Aiff,
            16 => FormatId::ImageSequence,
            17 => FormatId::RawVideo,
            18 => FormatId::RawAudio,
            _ => FormatId::Mpeg4Es,
        }
    }

    /// Human readable name of the format.
    pub fn name(&self) -> (r: &'static str)
        ensures
            r@ == format_name(*self),
    {
        match self {
            FormatId::Mp4 => "mp4",
            FormatId::Matroska => "matroska",
            FormatId::Webm => "webm",
            FormatId::Avi => "avi",
            FormatId::Flv => "flv",
            FormatId::MpegTs => "mpegts",
            FormatId::MpegPs => "mpeg",
            FormatId::Mxf => "mxf",
            FormatId::ThreeGp => "3gp",
            FormatId::Ogg => "ogg",
            FormatId::Asf => "asf",
            FormatId::Wav => "wav",
            FormatId::FlacContainer => "flac",
            FormatId::Mp3Container => "mp3",
            FormatId::AacAdts => "aac",
            FormatId::Aiff => "aiff",
            FormatId::ImageSequence => "image2",
            FormatId::RawVideo => "rawvideo",
            FormatId::RawAudio => "rawaudio",
            FormatId::Mpeg4Es => "m4v",
            FormatId::H264Es => "h264",
            FormatId::Cue => "cue",
        }
    }

    /// File extensions commonly used for the format.
    pub fn extensions(&self) -> (r: Vec<&'static str>)
        ensures
            r@.len() == format_extensions(*self).len(),
            forall|i: int| 0 <= i < r@.len() ==> r@[i]@ == format_extensions(*self)[i],
    {
        let mut v: Vec<&'static str> = Vec::new();
        match self {
            FormatId::Mp4 => { v.push("mp4"); v.push("m4a"); v.push("m4v"); v.push("mov"); },
            FormatId::Matroska => { v.push("mkv"); v.push("mka"); },
            FormatId::Webm => { v.push("webm"); },
            FormatId::Avi => { v.push("avi"); },
            FormatId::Flv => { v.push("flv"); },
            FormatId::MpegTs => { v.push("ts"); v.push("m2ts"); v.push("mts"); },
            FormatId::MpegPs => { v.push("mpg"); v.push("mpeg"); v.push("vob"); },
            FormatId::Mxf => { v.push("mxf"); },
            FormatId::ThreeGp => { v.push("3gp"); v.push("3g2"); },
            FormatId::Ogg => { v.push("ogg"); v.push("ogv"); v.push("oga"); v.push("ogx"); },
            FormatId::Asf => { v.push("asf"); v.push("wmv"); v.push("wma"); },
            FormatId::Wav => { v.push("wav"); },
            FormatId::FlacContainer => { v.push("flac"); },
            FormatId::Mp3Container => { v.push("mp3"); },
            FormatId::AacAdts => { v.push("aac"); },
            FormatId::Aiff => { v.push("aiff"); v.push("aif"); },
            FormatId::ImageSequence => { v.push("png"); v.push("jpg"); v.push("jpeg"); v.push("bmp"); },
            FormatId::RawVideo => { v.push("yuv"); v.push("rgb"); },
            FormatId::RawAudio => { v.push("pcm"); v.push("raw"); },
            FormatId::Mpeg4Es => { v.push("m4v"); },
            FormatId::H264Es => { v.push("h264"); v.push("264"); },
            FormatId::Cue => { v.push("cue"); },
        }
        v
    }

    /// Whether `ext` is one of the format's extensions.
    pub fn has_extension(&self, ext: &str) -> (r: bool)
        ensures
            r == format_extensions(*self).contains(ext@),
    {
        let exts = self.extensions();
        let mut i: usize = 0;
        while i < exts.len()
            invariant
                i <= exts@.len(),
                exts@.len() == format_extensions(*self).len(),
                forall|k: int| 0 <= k < exts@.len() ==> exts@[k]@ == format_extensions(*self)[k],
                forall|k: int| 0 <= k < i ==> format_extensions(*self)[k] != ext@,
            decreases exts.len() - i,
        {
            if str_eq(exts[i], ext) {
                assert(format_extensions(*self)[i as int] == ext@);
                return true;
            }
            i = i + 1;
        }
        false
    }

    /// The format whose extensions include `ext`, which is already lowercase.
    pub fn from_lowercase_extension(ext: &str) -> (r: Option<FormatId>)
        ensures
            r == format_for_extension(ext@),
    {
        let mut i: usize = 0;
        while i < 20
            invariant
                i <= 20,
                all_formats().len() == 20,
                forall|j: int| 0 <= j < i ==> !format_extensions(all_formats()[j]).contains(ext@),
            decreases 20 - i,
        {
            let id = FormatId::nth_searched(i);
            if id.has_extension(ext) {
                proof {
                    lemma_first_with_extension(all_formats(), ext@, i as int);
                }
                return Some(id);
            }
            i = i + 1;
        }
        proof {
            lemma_first_with_extension(all_formats(), ext@, 20);
        }
        None
    }

    /// Guesses the format from a file extension (without the dot), ignoring case.
    pub fn from_extension(ext: &str) -> (r: Option<FormatId>)
        ensures
            r == format_for_extension(unicode_lowercase(ext@)),
            ascii_text(ext@) ==> r == format_for_extension(ascii_lower_seq(ext@)),
    {
        let lower = to_lowercase(ext);
        FormatId::from_lowercase_extension(lower.as_str())
    }

    /// Guesses the format from a file name, by its extension.
    pub fn from_filename(filename: &str) -> (r: Option<FormatId>)
        ensures
            r == format_for_extension(unicode_lowercase(after_last_dot(filename@))),
    {
        let ext = extension_of(filename);
        FormatId::from_extension(ext)
    }
}

} // verus!

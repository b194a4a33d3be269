use tao_format::demuxers::cue::{
    cue_text_admits, decode_cue_text, parse_cue_text, parse_field, parse_file_path, parse_msf,
    parse_track_number, parse_u32, read_cue_sheet, u32_to_decimal, unquote,
};
use tao_format::error::TaoError;
use tao_format::io::{IoContext, MemoryBackend};

#[test]
fn test_unquote() {
    assert_eq!(unquote("\"hello\""), "hello");
    assert_eq!(unquote("'world'"), "world");
    assert_eq!(unquote("no quotes"), "no quotes");
    assert_eq!(unquote("  \"trimmed\"  "), "trimmed");
}

#[test]
fn unquote_mismatched_quotes_kept() {
    assert_eq!(unquote("\"half'"), "\"half'");
    assert_eq!(unquote("\"\""), "");
}

#[test]
fn test_parse_field() {
    assert_eq!(parse_field("PERFORMER \"Jay Chou\"", "PERFORMER"), Some("Jay Chou".to_string()));
    assert_eq!(parse_field("TITLE \"\u{53ef}\u{7231}\u{5973}\u{4eba}\"", "TITLE"), Some("\u{53ef}\u{7231}\u{5973}\u{4eba}".to_string()));
    assert_eq!(parse_field("INDEX 01 00:00:00", "INDEX 01"), Some("00:00:00".to_string()));
}

#[test]
fn parse_field_other_prefix_is_none() {
    assert_eq!(parse_field("TITLE \"x\"", "PERFORMER"), None);
}

#[test]
fn test_parse_track_number() {
    assert_eq!(parse_track_number("TRACK 01 AUDIO"), Some(1));
    assert_eq!(parse_track_number("TRACK 12 AUDIO"), Some(12));
    assert_eq!(parse_track_number("INVALID"), None);
}

#[test]
fn parse_track_number_edge_cases() {
    assert_eq!(parse_track_number("  TRACK\t07"), Some(7));
    assert_eq!(parse_track_number("TRACK"), None);
    assert_eq!(parse_track_number("TRACK xx AUDIO"), None);
    assert_eq!(parse_track_number("track 01 AUDIO"), None);
}

#[test]
fn parse_u32_matches_std() {
    for s in ["0", "+7", "4294967295", "4294967296", "", "+", "-1", "12a", "007"] {
        assert_eq!(parse_u32(s), s.parse::<u32>().ok(), "input {s:?}");
    }
}

#[test]
fn cue_sheet_tracks_and_metadata() {
    let text = "REM GENRE Rock\r\nREM DATE 2001\r\nREM COMMENT \"x\"\r\nPERFORMER \"The Band\"\r\nTITLE \"Album\"\r\nFILE \"music file.flac\" WAVE\r\n  TRACK 01 AUDIO\r\n    TITLE \"One\"\r\n    INDEX 01 00:00:00\r\n  TRACK 02 AUDIO\r\n    TITLE \"Two\"\r\n    PERFORMER Guest\r\n    INDEX 01 03:25:40\r\n";
    let sheet = parse_cue_text(text).unwrap();
    assert_eq!(sheet.file, "music file.flac");
    let meta: Vec<(&str, &str)> = sheet.metadata.iter().map(|(k, v)| (k.as_str(), v.as_str())).collect();
    assert_eq!(meta, vec![("genre", "Rock"), ("date", "2001"), ("artist", "The Band"), ("album", "Album")]);
    assert_eq!(sheet.chapters.len(), 2);
    assert_eq!(sheet.chapters[0].start, Some((0, 0, 0)));
    assert_eq!(sheet.chapters[1].start, Some((3, 25, 40)));
    let m0: Vec<(&str, &str)> = sheet.chapters[0].metadata.iter().map(|(k, v)| (k.as_str(), v.as_str())).collect();
    assert_eq!(m0, vec![("title", "One"), ("artist", "The Band"), ("album", "Album"), ("track", "1")]);
    let m1: Vec<(&str, &str)> = sheet.chapters[1].metadata.iter().map(|(k, v)| (k.as_str(), v.as_str())).collect();
    assert_eq!(m1, vec![("title", "Two"), ("artist", "Guest"), ("album", "Album"), ("track", "2")]);
}

#[test]
fn cue_sheet_without_file_is_invalid() {
    assert!(matches!(parse_cue_text("TRACK 01 AUDIO\n"), Err(TaoError::InvalidData(_))));
    let sheet = parse_cue_text("FILE a.wav WAVE").unwrap();
    assert_eq!(sheet.file, "a.wav");
    assert!(sheet.chapters.is_empty());
}

#[test]
fn cue_helpers() {
    assert_eq!(parse_msf("01:02:03"), Some((1, 2, 3)));
    assert_eq!(parse_msf("01:02"), None);
    assert_eq!(parse_msf("1:2:3:4"), None);
    assert_eq!(parse_msf("a:2:3"), None);
    assert_eq!(parse_file_path("  FILE \"x y.wav\" WAVE").as_deref(), Some("x y.wav"));
    assert_eq!(parse_file_path("FILE  z.mp3 MP3").as_deref(), Some("z.mp3"));
    assert_eq!(parse_file_path("FILE"), None);
    assert_eq!(parse_file_path("TRACK 01"), None);
    assert_eq!(u32_to_decimal(0), "0");
    assert_eq!(u32_to_decimal(4_294_967_295), "4294967295");
    assert!(cue_text_admits("TITLE \"a\"\nFILE x"));
    assert!(!cue_text_admits("FILE x\nTITLE \"\n"));
}

#[test]
fn cue_decode_and_read() {
    assert!(matches!(decode_cue_text(&[]), Err(TaoError::InvalidData(_))));
    assert_eq!(decode_cue_text(&[0xEF, 0xBB, 0xBF, b'h', b'i']).unwrap(), "hi");
    assert_eq!(decode_cue_text(&[0xFF, 0xFE, b'o', 0, b'k', 0]).unwrap(), "ok");
    assert_eq!(decode_cue_text(&[0xFE, 0xFF, 0, b'o', 0, b'k']).unwrap(), "ok");
    assert_eq!(decode_cue_text("héllo".as_bytes()).unwrap(), "héllo");
    // GBK bytes of two CJK characters
    assert_eq!(decode_cue_text(&[0xC4, 0xE3, 0xBA, 0xC3]).unwrap(), "\u{4f60}\u{597d}");

    let mut io = IoContext::new(MemoryBackend::from_data(b"FILE \"a.flac\" WAVE\nTRACK 01 AUDIO\nINDEX 01 00:01:00\n".to_vec()));
    let sheet = read_cue_sheet(&mut io).unwrap();
    assert_eq!(sheet.file, "a.flac");
    assert_eq!(sheet.chapters[0].start, Some((0, 1, 0)));
    let mut io = IoContext::new(MemoryBackend::from_data(Vec::new()));
    assert!(matches!(read_cue_sheet(&mut io), Err(TaoError::InvalidData(_))));
    let mut io = IoContext::new(MemoryBackend::from_data(b"FILE x\nTITLE '\n".to_vec()));
    assert!(matches!(read_cue_sheet(&mut io), Err(TaoError::InvalidData(_))));
}

use tao_format::demuxers::aiff::AiffProbe;
use tao_format::demuxers::avi::AviProbe;
use tao_format::demuxers::cue::CueProbe;
use tao_format::demuxers::flac::FlacProbe;
use tao_format::demuxers::flv::FlvProbe;
use tao_format::demuxers::h264es::{find_start_code, H264EsProbe};
use tao_format::demuxers::m4v::M4vProbe;
use tao_format::demuxers::mkv::MkvProbe;
use tao_format::demuxers::mp3::{parse_frame_header, Mp3Probe, MpegVersion};
use tao_format::demuxers::mp4::boxes::BoxType;
use tao_format::demuxers::mp4::Mp4Probe;
use tao_format::demuxers::ogg::OggProbe;
use tao_format::demuxers::wav::WavProbe;
use tao_format::format_id::FormatId;
use tao_format::probe::{best_probe, probe_window, FormatProbe, SCORE_EXTENSION, SCORE_MAX, SCORE_MIME};

fn make_simple_aiff(pcm_data: &[u8]) -> Vec<u8> {
    let comm_size: u32 = 18;
    let ssnd_chunk_size = 8 + pcm_data.len() as u32;
    let form_size = 4 + 8 + comm_size + 8 + ssnd_chunk_size;
    let mut buf = Vec::new();
    buf.extend_from_slice(b"FORM");
    buf.extend_from_slice(&form_size.to_be_bytes());
    buf.extend_from_slice(b"AIFF");
    buf.extend_from_slice(b"COMM");
    buf.extend_from_slice(&comm_size.to_be_bytes());
    buf.extend_from_slice(&1u16.to_be_bytes());
    buf.extend_from_slice(&((pcm_data.len() / 2) as u32).to_be_bytes());
    buf.extend_from_slice(&16u16.to_be_bytes());
    // 44100 Hz as an 80-bit IEEE extended number
    buf.extend_from_slice(&[0x40, 0x0E, 0xAC, 0x44, 0, 0, 0, 0, 0, 0]);
    buf.extend_from_slice(b"SSND");
    buf.extend_from_slice(&ssnd_chunk_size.to_be_bytes());
    buf.extend_from_slice(&0u32.to_be_bytes());
    buf.extend_from_slice(&0u32.to_be_bytes());
    buf.extend_from_slice(pcm_data);
    buf
}

#[test]
fn test_probe_aiff_magic() {
    let aiff = make_simple_aiff(&[0; 4]);
    let probe = AiffProbe;
    assert_eq!(probe.probe(&aiff, None), Some(SCORE_MAX));
}

#[test]
fn test_probe_aiff_extension() {
    let probe = AiffProbe;
    assert_eq!(probe.probe(&[], Some("test.aiff")), Some(SCORE_EXTENSION));
    assert_eq!(probe.probe(&[], Some("test.aif")), Some(SCORE_EXTENSION));
    assert_eq!(probe.probe(&[], Some("test.wav")), None);
}

#[test]
fn aiff_probe_aifc_and_case() {
    let mut data = make_simple_aiff(&[0; 4]);
    data[8..12].copy_from_slice(b"AIFC");
    assert_eq!(AiffProbe.probe(&data, None), Some(SCORE_MAX));
    assert_eq!(AiffProbe.probe(&[], Some("SONG.AIF")), Some(SCORE_EXTENSION));
    assert_eq!(AiffProbe.format_id(), FormatId::Aiff);
}

fn make_minimal_avi_head() -> Vec<u8> {
    let mut buf = Vec::new();
    buf.extend_from_slice(b"RIFF");
    buf.extend_from_slice(&324u32.to_le_bytes());
    buf.extend_from_slice(b"AVI ");
    buf.extend_from_slice(b"LIST");
    buf
}

#[test]
fn test_probe_avi_magic() {
    let avi = make_minimal_avi_head();
    let probe = AviProbe;
    assert_eq!(probe.probe(&avi, None), Some(SCORE_MAX));
}

#[test]
fn test_probe_avi_extension() {
    let probe = AviProbe;
    assert_eq!(probe.probe(&[], Some("test.avi")), Some(SCORE_EXTENSION));
    assert_eq!(probe.probe(&[], Some("test.mp4")), None);
}

#[test]
fn cue_probe_extension_and_content() {
    let probe = CueProbe;
    assert_eq!(probe.probe(&[], Some("album.CUE")), Some(SCORE_EXTENSION));
    let sheet = b"FILE \"a.wav\" WAVE\n  TRACK 01 AUDIO\n";
    assert_eq!(probe.probe(sheet, None), Some(SCORE_MAX));
    assert_eq!(probe.probe(b"FILE only, no track", None), None);
    assert_eq!(probe.probe(b"FILE", None), None);
}

#[test]
fn test_probe_flac_magic() {
    let data = b"fLaC\x00\x00\x00\x22";
    let probe = FlacProbe;
    assert_eq!(probe.probe(data, None), Some(SCORE_MAX));
}

#[test]
fn test_probe_flac_extension() {
    let probe = FlacProbe;
    assert_eq!(probe.probe(&[], Some("test.flac")), Some(SCORE_EXTENSION));
    assert_eq!(probe.probe(&[], Some("test.wav")), None);
}

fn build_flv_header(has_audio: bool, has_video: bool) -> Vec<u8> {
    let mut data = Vec::new();
    data.extend_from_slice(b"FLV");
    data.push(1);
    let flags = if has_audio { 0x04 } else { 0 } | if has_video { 0x01 } else { 0 };
    data.push(flags);
    data.extend_from_slice(&9u32.to_be_bytes());
    data.extend_from_slice(&0u32.to_be_bytes());
    data
}

#[test]
fn test_probe_flv_signature() {
    let probe = FlvProbe;
    let data = build_flv_header(true, true);
    assert_eq!(probe.probe(&data, None), Some(SCORE_MAX));
}

#[test]
fn test_probe_flv_extension() {
    let probe = FlvProbe;
    assert!(probe.probe(&[], Some("video.flv")).is_some());
    assert!(probe.probe(&[], Some("video.mp4")).is_none());
}

#[test]
fn flv_probe_needs_version_one() {
    let mut data = build_flv_header(true, false);
    data[3] = 2;
    assert_eq!(FlvProbe.probe(&data, None), None);
    assert_eq!(FlvProbe.probe(&[], Some("CLIP.FLV")), Some(SCORE_EXTENSION));
}

#[test]
fn test_h264_probe() {
    let probe = H264EsProbe;
    assert!(probe.probe(&[0x00, 0x00, 0x00, 0x01, 0x67], None).is_some());
    assert!(probe.probe(&[0x00, 0x00, 0x01, 0x65], None).is_some());
    assert!(probe.probe(&[], Some("test.h264")).is_some());
    assert!(probe.probe(&[], Some("test.264")).is_some());
    assert!(probe.probe(&[0xFF, 0xD8, 0xFF, 0xE0], None).is_none());
}

#[test]
fn test_find_start_code() {
    let data = [0x00, 0x00, 0x00, 0x01, 0x67, 0x42, 0x00, 0x00, 0x01, 0x68];
    assert_eq!(find_start_code(&data, 0), Some(0));
    assert_eq!(find_start_code(&data, 4), Some(6));
}

#[test]
fn find_start_code_none_past_end() {
    let data = [0x00, 0x00, 0x01, 0x68, 0x00];
    assert_eq!(find_start_code(&data, 1), None);
    assert_eq!(find_start_code(&data, 10), None);
}

#[test]
fn test_m4v_probe() {
    let probe = M4vProbe;
    assert_eq!(probe.probe(&[0x00, 0x00, 0x01, 0xB0], None), Some(90));
    assert_eq!(probe.probe(&[0x00, 0x00, 0x01, 0xB5], None), Some(80));
    assert_eq!(probe.probe(&[0x00, 0x00, 0x01, 0x20], None), Some(70));
    assert_eq!(probe.probe(&[0x00, 0x00, 0x01, 0xB6], None), Some(50));
    assert_eq!(probe.probe(&[0x00, 0x00, 0x01, 0xC0], None), None);
    assert_eq!(probe.probe(&[0xFF, 0xD8, 0xFF, 0xE0], None), None);
}

#[test]
fn m4v_probe_group_of_vop_and_short_input() {
    assert_eq!(M4vProbe.probe(&[0x00, 0x00, 0x01, 0xB3], None), Some(60));
    assert_eq!(M4vProbe.probe(&[0x00, 0x00, 0x01], None), None);
}

#[test]
fn test_probe_mkv_magic() {
    let probe = MkvProbe;
    let data = [0x1A, 0x45, 0xDF, 0xA3];
    assert_eq!(probe.probe(&data, None), Some(SCORE_MAX));
}

#[test]
fn test_probe_mkv_extension() {
    let probe = MkvProbe;
    assert!(probe.probe(&[], Some("video.mkv")).is_some());
    assert!(probe.probe(&[], Some("video.webm")).is_some());
    assert!(probe.probe(&[], Some("audio.mka")).is_some());
    assert!(probe.probe(&[], Some("video.mp4")).is_none());
}

fn make_mp3_frame_header(bitrate_idx: u8, sr_idx: u8, padding: bool) -> [u8; 4] {
    let mut h: u32 = 0xFFFB_0000;
    h |= u32::from(bitrate_idx & 0x0F) << 12;
    h |= u32::from(sr_idx & 0x03) << 10;
    if padding {
        h |= 1 << 9;
    }
    h.to_be_bytes()
}

#[test]
fn test_frame_header_parse_mpeg1_layer3_128kbps_44100() {
    let header = make_mp3_frame_header(9, 0, false);
    let h_val = u32::from_be_bytes(header);
    let fh = parse_frame_header(h_val).unwrap();
    assert_eq!(fh.version, MpegVersion::V1);
    assert_eq!(fh.layer, 3);
    assert_eq!(fh.bitrate, 128_000);
    assert_eq!(fh.sample_rate, 44100);
    assert_eq!(fh.samples_per_frame, 1152);
    assert_eq!(fh.frame_size, 417);
}

#[test]
fn test_frame_header_parse_mpeg1_layer3_320kbps_48000() {
    let header = make_mp3_frame_header(14, 1, false);
    let h_val = u32::from_be_bytes(header);
    let fh = parse_frame_header(h_val).unwrap();
    assert_eq!(fh.bitrate, 320_000);
    assert_eq!(fh.sample_rate, 48000);
    assert_eq!(fh.frame_size, 960);
}

#[test]
fn test_frame_header_parse_invalid_sync() {
    assert!(parse_frame_header(0x00000000).is_none());
    assert!(parse_frame_header(0x12345678).is_none());
}

#[test]
fn mp3_frame_header_padding_adds_one_byte() {
    let header = make_mp3_frame_header(9, 0, true);
    let fh = parse_frame_header(u32::from_be_bytes(header)).unwrap();
    assert_eq!(fh.frame_size, 418);
}

#[test]
fn test_probe_id3v2() {
    let probe = Mp3Probe;
    let header = make_mp3_frame_header(9, 0, false);
    let mut data = b"ID3\x04\x00\x00\x00\x00\x00\x00".to_vec();
    data.extend_from_slice(&header);
    assert_eq!(probe.probe(&data, None), Some(SCORE_MAX - 5));
}

#[test]
fn test_probe_frame_sync() {
    let probe = Mp3Probe;
    let header = make_mp3_frame_header(9, 0, false);
    assert!(probe.probe(&header, None).is_some());
}

#[test]
fn test_probe_id3_then_non_mp3_frame() {
    let probe = Mp3Probe;
    let data = b"ID3\x04\x00\x00\x00\x00\x00\x00OggS";
    assert!(probe.probe(data, None).is_none());
}

#[test]
fn test_probe_extension() {
    let probe = Mp3Probe;
    assert!(probe.probe(&[], Some("song.mp3")).is_some());
    assert!(probe.probe(&[], Some("video.mp4")).is_none());
}

#[test]
fn test_box_type_identify() {
    assert_eq!(BoxType::from_fourcc(b"ftyp"), BoxType::Ftyp);
    assert_eq!(BoxType::from_fourcc(b"moov"), BoxType::Moov);
    assert_eq!(BoxType::from_fourcc(b"mdat"), BoxType::Mdat);
    assert!(matches!(BoxType::from_fourcc(b"xxxx"), BoxType::Unknown(_)));
}

#[test]
fn box_type_keeps_unknown_fourcc() {
    assert_eq!(BoxType::from_fourcc(b"abcd"), BoxType::Unknown(*b"abcd"));
    assert_eq!(BoxType::from_fourcc(b"co64"), BoxType::Co64);
    assert_eq!(BoxType::from_fourcc(b"skip"), BoxType::Skip);
}

#[test]
fn test_probe_mp4_ftyp() {
    let probe = Mp4Probe;
    let mut data = vec![0u8; 20];
    data[3] = 20;
    data[4..8].copy_from_slice(b"ftyp");
    data[8..12].copy_from_slice(b"isom");
    assert!(probe.probe(&data, None).is_some());
    assert_eq!(probe.probe(&data, None), Some(SCORE_MAX));
}

#[test]
fn test_probe_mp4_extension() {
    let probe = Mp4Probe;
    assert!(probe.probe(&[], Some("video.mp4")).is_some());
    assert!(probe.probe(&[], Some("audio.m4a")).is_some());
    assert!(probe.probe(&[], Some("movie.mov")).is_some());
    assert!(probe.probe(&[], Some("music.wav")).is_none());
}

#[test]
fn mp4_probe_moov_first_scores_mime() {
    let mut data = vec![0u8; 16];
    data[4..8].copy_from_slice(b"moov");
    assert_eq!(Mp4Probe.probe(&data, None), Some(SCORE_MIME));
}

#[test]
fn test_probe_ogg_magic() {
    let probe = OggProbe;
    assert!(probe.probe(b"OggS", None).is_some());
    assert!(probe.probe(b"RIFF", None).is_none());
    assert_eq!(probe.format_id(), FormatId::Ogg);
}

#[test]
fn test_probe_ogg_id3_prefix() {
    let probe = OggProbe;
    let data = b"ID3\x04\x00\x00\x00\x00\x00\x00OggS";
    assert!(probe.probe(data, None).is_some());
}

#[test]
fn ogg_probe_id3_prefix_score() {
    let data = b"ID3\x04\x00\x00\x00\x00\x00\x00OggS";
    assert_eq!(OggProbe.probe(data, None), Some(SCORE_MAX - 2));
}

#[test]
fn test_probe_ogg_extension() {
    let probe = OggProbe;
    assert!(probe.probe(&[], Some("test.ogg")).is_some());
    assert!(probe.probe(&[], Some("test.oga")).is_some());
    assert!(probe.probe(&[], Some("test.ogv")).is_some());
    assert!(probe.probe(&[], Some("test.mp3")).is_none());
}

fn make_simple_wav(pcm_data: &[u8]) -> Vec<u8> {
    let data_size = pcm_data.len() as u32;
    let file_size = 36 + data_size;
    let channels: u16 = 1;
    let sample_rate: u32 = 44100;
    let bits_per_sample: u16 = 16;
    let block_align = channels * (bits_per_sample / 8);
    let byte_rate = sample_rate * u32::from(block_align);
    let mut buf = Vec::new();
    buf.extend_from_slice(b"RIFF");
    buf.extend_from_slice(&file_size.to_le_bytes());
    buf.extend_from_slice(b"WAVE");
    buf.extend_from_slice(b"fmt ");
    buf.extend_from_slice(&16u32.to_le_bytes());
    buf.extend_from_slice(&1u16.to_le_bytes());
    buf.extend_from_slice(&channels.to_le_bytes());
    buf.extend_from_slice(&sample_rate.to_le_bytes());
    buf.extend_from_slice(&byte_rate.to_le_bytes());
    buf.extend_from_slice(&block_align.to_le_bytes());
    buf.extend_from_slice(&bits_per_sample.to_le_bytes());
    buf.extend_from_slice(b"data");
    buf.extend_from_slice(&data_size.to_le_bytes());
    buf.extend_from_slice(pcm_data);
    buf
}

#[test]
fn test_probe_wav_magic() {
    let wav = make_simple_wav(&[0; 4]);
    let probe = WavProbe;
    assert_eq!(probe.probe(&wav, None), Some(SCORE_MAX));
}

#[test]
fn test_probe_wav_extension() {
    let probe = WavProbe;
    assert_eq!(probe.probe(&[], Some("test.wav")), Some(SCORE_EXTENSION));
    assert_eq!(probe.probe(&[], Some("test.mp3")), None);
}

#[test]
fn wav_probe_wave_extension_upper_case() {
    assert_eq!(WavProbe.probe(&[], Some("TAKE.WAVE")), Some(SCORE_EXTENSION));
    assert_eq!(WavProbe.probe(b"RIFF\x00\x00\x00\x00AVI ", None), None);
}

#[test]
fn best_probe_takes_first_highest_score() {
    let answers = [
        (FormatId::Wav, None),
        (FormatId::Mp3Container, Some(50)),
        (FormatId::AacAdts, Some(90)),
        (FormatId::Wav, Some(90)),
        (FormatId::Aiff, Some(10)),
    ];
    let r = best_probe(&answers).unwrap();
    assert_eq!(r.format_id, FormatId::AacAdts);
    assert_eq!(r.score, 90);
    assert!(best_probe(&[(FormatId::Wav, None)]).is_none());
    assert!(best_probe(&[]).is_none());
}

#[test]
fn probe_window_bounds() {
    assert_eq!(probe_window(None), 8192);
    assert_eq!(probe_window(Some(3)), 12);
    assert_eq!(probe_window(Some(1000)), 1000);
    assert_eq!(probe_window(Some(1 << 40)), 8192);
}

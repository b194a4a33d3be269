use tao_format::demuxer::Demuxer;
use tao_format::demuxers::wav::WavDemuxer;
use tao_format::error::TaoError;
use tao_format::io::{IoContext, MemoryBackend, SeekFrom};
use tao_format::media::{
    AudioStreamParams, ChannelLayout, CodecId, MediaType, Packet, PixelFormat, Rational,
    SampleFormat, SeekFlags, Stream, StreamParams, VideoStreamParams,
};
use tao_format::muxer::Muxer;
use tao_format::muxers::wav::WavMuxer;

fn make_simple_wav(pcm_data: &[u8]) -> Vec<u8> {
    let data_size = pcm_data.len() as u32;
    let file_size = 36 + data_size;
    let channels: u16 = 1;
    let sample_rate: u32 = 44100;
    let bits_per_sample: u16 = 16;
    let block_align = channels * (bits_per_sample / 8);
    let byte_rate = sample_rate * u32::from(block_align);
    let mut buf = Vec::new();
    buf.extend_from_slice(b"RIFF");
    buf.extend_from_slice(&file_size.to_le_bytes());
    buf.extend_from_slice(b"WAVE");
    buf.extend_from_slice(b"fmt ");
    buf.extend_from_slice(&16u32.to_le_bytes());
    buf.extend_from_slice(&1u16.to_le_bytes());
    buf.extend_from_slice(&channels.to_le_bytes());
    buf.extend_from_slice(&sample_rate.to_le_bytes());
    buf.extend_from_slice(&byte_rate.to_le_bytes());
    buf.extend_from_slice(&block_align.to_le_bytes());
    buf.extend_from_slice(&bits_per_sample.to_le_bytes());
    buf.extend_from_slice(b"data");
    buf.extend_from_slice(&data_size.to_le_bytes());
    buf.extend_from_slice(pcm_data);
    buf
}

fn make_audio_stream(codec_id: CodecId, sample_rate: u32, channels: u32) -> Stream {
    Stream {
        index: 0,
        media_type: MediaType::Audio,
        codec_id,
        time_base: Rational::new(1, sample_rate as i32),
        duration: 0,
        start_time: 0,
        nb_frames: 0,
        extra_data: Vec::new(),
        params: StreamParams::Audio(AudioStreamParams {
            sample_rate,
            channel_layout: ChannelLayout::from_channels(channels),
            sample_format: SampleFormat::S16,
            bit_rate: 0,
            frame_size: 0,
        }),
        metadata: Vec::new(),
    }
}

#[test]
fn wav_test_demux_basic_stream_info() {
    let pcm = vec![0x00, 0x01, 0xFF, 0x7F, 0x00, 0x80, 0x01, 0x00];
    let wav = make_simple_wav(&pcm);
    let mut io = IoContext::new(MemoryBackend::from_data(wav));
    let mut demuxer = WavDemuxer::create().unwrap();
    demuxer.open(&mut io).unwrap();
    let streams = demuxer.streams();
    assert_eq!(streams.len(), 1);
    let s = &streams[0];
    assert_eq!(s.media_type, MediaType::Audio);
    assert_eq!(s.codec_id, CodecId::PcmS16le);
    assert_eq!(s.nb_frames, 4);
}

#[test]
fn wav_test_demux_read_packets() {
    let pcm = vec![0x00, 0x01, 0xFF, 0x7F, 0x00, 0x80, 0x01, 0x00];
    let wav = make_simple_wav(&pcm);
    let mut io = IoContext::new(MemoryBackend::from_data(wav));
    let mut demuxer = WavDemuxer::create().unwrap();
    demuxer.open(&mut io).unwrap();
    let pkt = demuxer.read_packet(&mut io).unwrap();
    assert_eq!(&pkt.data[..], &pcm[..]);
    assert_eq!(pkt.pts, 0);
    assert_eq!(pkt.duration, 4);
    assert!(pkt.is_keyframe);
    let err = demuxer.read_packet(&mut io).unwrap_err();
    assert!(matches!(err, TaoError::Eof));
}

#[test]
fn test_non_riff_file_error() {
    let bad = b"NOT_RIFF_DATA_HERE".to_vec();
    let mut io = IoContext::new(MemoryBackend::from_data(bad));
    let mut demuxer = WavDemuxer::create().unwrap();
    let err = demuxer.open(&mut io).unwrap_err();
    assert!(matches!(err, TaoError::InvalidData(_)));
}

#[test]
fn wav_open_skips_unknown_odd_chunk() {
    let pcm = [1u8, 2, 3, 4];
    let wav = make_simple_wav(&pcm);
    let mut patched = wav[..36].to_vec();
    patched.extend_from_slice(b"LIST");
    patched.extend_from_slice(&3u32.to_le_bytes());
    patched.extend_from_slice(&[9, 9, 9, 0]);
    patched.extend_from_slice(&wav[36..]);
    let mut io = IoContext::new(MemoryBackend::from_data(patched));
    let mut demuxer = WavDemuxer::new();
    demuxer.open_wav(&mut io).unwrap();
    let pkt = demuxer.read_wav_packet(&mut io).unwrap();
    assert_eq!(&pkt.data[..], &pcm[..]);
    assert_eq!(pkt.pos, 56);
}

#[test]
fn wav_open_errors() {
    let mut io = IoContext::new(MemoryBackend::from_data(b"RIFF\0\0\0\0WAVEdata\0\0\0\0".to_vec()));
    assert!(matches!(WavDemuxer::new().open_wav(&mut io), Err(TaoError::InvalidData(_))));
    let mut io = IoContext::new(MemoryBackend::from_data(b"RIFF\0\0\0\0WAVE".to_vec()));
    assert!(matches!(WavDemuxer::new().open_wav(&mut io), Err(TaoError::InvalidData(_))));
    let mut io = IoContext::new(MemoryBackend::from_data(b"RIFF\0\0".to_vec()));
    assert!(matches!(WavDemuxer::new().open_wav(&mut io), Err(TaoError::Eof)));
    let mut wav = make_simple_wav(&[0; 4]);
    wav[20] = 2;
    let mut io = IoContext::new(MemoryBackend::from_data(wav));
    assert!(matches!(WavDemuxer::new().open_wav(&mut io), Err(TaoError::Unsupported(_))));
}

#[test]
fn wav_seek_moves_to_frame() {
    let pcm: Vec<u8> = (0..16).collect();
    let wav = make_simple_wav(&pcm);
    let mut io = IoContext::new(MemoryBackend::from_data(wav));
    let mut demuxer = WavDemuxer::new();
    demuxer.open_wav(&mut io).unwrap();
    demuxer.seek(&mut io, 0, 3, SeekFlags::default()).unwrap();
    let pkt = demuxer.read_packet(&mut io).unwrap();
    assert_eq!(pkt.pts, 3);
    assert_eq!(&pkt.data[..], &pcm[6..]);
    demuxer.seek(&mut io, 0, 100, SeekFlags::default()).unwrap();
    assert!(matches!(demuxer.read_packet(&mut io), Err(TaoError::Eof)));
}

#[test]
fn wav_test_mux_basic_write() {
    let mut io = IoContext::new(MemoryBackend::new());
    let stream = make_audio_stream(CodecId::PcmS16le, 44100, 1);
    let mut muxer = WavMuxer::create().unwrap();
    muxer.write_header(&mut io, &[stream]).unwrap();
    let pcm = vec![0x00, 0x01, 0xFF, 0x7F, 0x00, 0x80, 0x01, 0x00];
    let pkt = Packet::from_data(bytes::Bytes::from(pcm));
    muxer.write_packet(&mut io, &pkt).unwrap();
    muxer.write_trailer(&mut io).unwrap();
}

#[test]
fn wav_muxed_bytes_are_exact() {
    let mut io = IoContext::new(MemoryBackend::new());
    let stream = make_audio_stream(CodecId::PcmS16le, 44100, 1);
    let mut muxer = WavMuxer::new();
    muxer.write_wav_header(&mut io, &[stream]).unwrap();
    let pkt = Packet::from_vec(vec![1, 2, 3, 4]);
    muxer.write_wav_packet(&mut io, &pkt).unwrap();
    muxer.write_wav_trailer(&mut io).unwrap();
    let expected = {
        let mut v = make_simple_wav(&[1, 2, 3, 4]);
        v[4..8].copy_from_slice(&40u32.to_le_bytes());
        v
    };
    assert_eq!(io.data(), &expected[..]);
}

#[test]
fn wav_test_mux_demux_roundtrip() {
    let mut io_w = IoContext::new(MemoryBackend::new());
    let stream = make_audio_stream(CodecId::PcmS16le, 44100, 2);
    let mut muxer = WavMuxer::create().unwrap();
    muxer.write_header(&mut io_w, &[stream]).unwrap();
    let pcm_data = vec![0x01, 0x00, 0x02, 0x00, 0x03, 0x00, 0x04, 0x00, 0x05, 0x00, 0x06, 0x00];
    let pkt = Packet::from_data(bytes::Bytes::from(pcm_data.clone()));
    muxer.write_packet(&mut io_w, &pkt).unwrap();
    muxer.write_trailer(&mut io_w).unwrap();
    io_w.seek(SeekFrom::Start(0)).unwrap();
    let pos = io_w.position().unwrap();
    assert_eq!(pos, 0);
    let mut demuxer = WavDemuxer::create().unwrap();
    demuxer.open(&mut io_w).unwrap();
    let streams = demuxer.streams();
    assert_eq!(streams.len(), 1);
    assert_eq!(streams[0].codec_id, CodecId::PcmS16le);
    if let StreamParams::Audio(a) = &streams[0].params {
        assert_eq!(a.sample_rate, 44100);
        assert_eq!(a.channel_layout.channels, 2);
    } else {
        panic!("expected audio parameters");
    }
    let read_pkt = demuxer.read_packet(&mut io_w).unwrap();
    assert_eq!(&read_pkt.data[..], &pcm_data[..]);
}

#[test]
fn test_unsupported_codec() {
    let mut io = IoContext::new(MemoryBackend::new());
    let stream = Stream {
        index: 0,
        media_type: MediaType::Video,
        codec_id: CodecId::H264,
        time_base: Rational::new(1, 25),
        duration: 0,
        start_time: 0,
        nb_frames: 0,
        extra_data: Vec::new(),
        params: StreamParams::Video(VideoStreamParams {
            width: 1920,
            height: 1080,
            pixel_format: PixelFormat::Yuv420p,
            frame_rate: Rational::new(25, 1),
            sample_aspect_ratio: Rational::new(1, 1),
            bit_rate: 0,
        }),
        metadata: Vec::new(),
    };
    let mut muxer = WavMuxer::create().unwrap();
    let err = muxer.write_header(&mut io, &[stream]).unwrap_err();
    assert!(matches!(err, TaoError::InvalidArgument(_)));
}

#[test]
fn wav_muxer_rejects_non_pcm_audio() {
    let mut io = IoContext::new(MemoryBackend::new());
    let stream = make_audio_stream(CodecId::Aac, 44100, 2);
    let mut muxer = WavMuxer::new();
    assert!(matches!(muxer.write_wav_header(&mut io, &[stream]), Err(TaoError::Unsupported(_))));
    assert_eq!(io.data().len(), 0);
}

//! Demuxers: readers of container formats.

pub mod aac;
pub mod mp3;
pub mod h264es;
pub mod mpegts;
pub mod wav;
pub mod aiff;
pub mod avi;
pub mod flac;
pub mod flv;
pub mod m4v;
pub mod ogg;
pub mod cue;
pub mod mkv;
pub mod mp4;

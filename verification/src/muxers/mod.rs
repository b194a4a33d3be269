//! Muxers: writers of container formats.

pub mod wav;
pub mod mpegts;
pub mod flac;
pub mod avi;
pub mod aiff;
pub mod mp3;
pub mod aac;
pub mod ogg;
pub mod mkv;
pub mod flv;
pub mod mp4;

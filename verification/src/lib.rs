//! Container formats for the Tao multimedia framework: probing, demuxing and
//! muxing of audio/video containers over an in-memory I/O context.
#![allow(unused_imports)]

use vstd::prelude::*;

pub mod error;
pub mod endian;
pub mod crc;
pub mod io;
pub mod text;
pub mod packet_data;
pub mod media;
pub mod format_id;
pub mod probe;
pub mod demuxer;
pub mod muxer;
pub mod muxers;
pub mod demuxers;

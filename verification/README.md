# tao_format

Container formats for the tao media framework: probing, demuxers (readers)
and muxers (writers), verified with Verus.

## Layout

- `src/` — the verified library.
  - `io.rs` — the in-memory I/O context every reader and writer works on.
  - `probe.rs`, `format_id.rs` — format detection by content and by file
    extension.
  - `io.rs` also holds the `IoBackend` trait, implemented by the memory
    backend.
  - `demuxers/` — WAV, AIFF, MP3, AAC (ADTS), FLAC, Ogg, AVI, FLV, MPEG-TS,
    MP4, Matroska/WebM, H.264 and MPEG-4 elementary streams, CUE sheets.
  - `muxers/` — WAV, AIFF, MP3, AAC (ADTS), FLAC, AVI, MPEG-TS, Ogg, MP4,
    Matroska/WebM and FLV.
  - `crc.rs`, `endian.rs`, `text.rs` — CRCs, byte order, text decoding.
- `app/` — the parts that are not verified: the format registry, file
  input and output, durations in seconds, the sample-rate converter, CUE
  sheet helpers that touch the file system, and FLV packet timestamps (all
  floating point or I/O).
- `tests/` — tests of the library.

## Assumptions

- The library is verified for 64-bit targets: the I/O contexts it accepts
  are bounded well below `usize::MAX` on such a target, and every reader and
  writer states this in its precondition (`io_in_range`, `out_in_range`).
  Callers can check these bounds with `io_admitted` and `out_admitted`.
- Floating point stays outside the library: durations in seconds, the
  FLV writer's packet timestamps (given to `FlvMuxer::write_packet_at` in
  milliseconds), and the sample-rate converter. Doubles the writers store
  (the Matroska duration and sampling frequency, the AIFF sample rate) are
  built from integers bit by bit, with their rounding stated. The Matroska
  reader keeps the segment duration as the float's bits (with the time
  scale, `duration_bits` and `timescale`), leaves stream durations unknown,
  reads a sampling frequency float's whole part from its bits, and computes
  a video frame rate from the default frame duration in integers.

## Not provided

- Seeking in MP4 and Matroska files: `seek` answers `NotImplemented`.

# dissonia

Audio encoding and container muxing, verified with Verus.

- `src/` — the library. Encoders for FLAC (fixed-predictor subframes, Rice
  coding, stereo decorrelation), PCM and Opus (through the `mousiki` crate);
  muxers for native FLAC (STREAMINFO, SEEKTABLE, VORBIS_COMMENT, padding),
  Ogg Opus (OpusHead, OpusTags, paged audio) and WAVE (classic and
  extensible `fmt `); the bit writer, CRCs, RIFF chunk writer and Vorbis
  comments they share; and the settings and framing of the MP3 encoder.
  Output is written to an in-memory `ByteCursor`.
- `tests/` — the test suite.
- `app/` — what stays outside the verified library: float helpers and the
  MP3 encoder's calls into its backend, which codes 32-bit float frames.

The library carries no floating-point values, so the Opus encoder takes 16-
and 24-bit integer input only and refuses 32-bit float input with
`Unsupported`; float samples elsewhere travel as their bit patterns.

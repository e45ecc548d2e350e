//! Verified audio encoding and container muxing: FLAC, PCM and Opus encoders;
//! FLAC, Ogg Opus and WAVE muxers; the settings and framing of the MP3 encoder.
use vstd::prelude::*;

pub mod audio;
pub mod bits;
pub mod codecs;
pub mod crc;
pub mod flac;
pub mod flac_meta;
pub mod flac_mux;
pub mod mp3;
pub mod formats;
pub mod io;
pub mod ogg_head;
pub mod opus;
pub mod opus_backend;
pub mod ogg_mux;
pub mod ogg_page;
pub mod packet;
pub mod pcm;
pub mod prelude;
pub mod riff;
pub mod error;
pub mod units;
pub mod vorbis;
pub mod wav;

pub use error::Error;

verus! {

} // verus!

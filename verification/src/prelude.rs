//! The items most callers need, in one place.
pub use crate::audio::{AudioBufferRef, AudioSpec, ChannelLayout, SampleFormat};
pub use crate::codecs::{AudioEncoder, CodecId, CodecParameters, PacketSink, VecPacketSink};
pub use crate::error::Error;
pub use crate::formats::{FinalizeSummary, FormatId, Muxer, MuxerExt, TrackId, TrackSpec, TrackWriter};
pub use crate::io::ByteCursor;
pub use crate::packet::{EncodedPacket, PacketFlags};
pub use crate::pcm::{PcmEncoder, PcmEncoderBuilder, PcmEncoderOptions};
pub use crate::units::{TimeBase, Timestamp};
pub use crate::wav::{WavMuxer, WavMuxerBuilder, WavMuxerOptions};
